//! Indentation and section-assembly helpers shared by both diagram types.

use vstd::prelude::*;

verus! {

/// A run of `n` space characters.
pub open spec fn spec_spaces(n: nat) -> Seq<char> {
    Seq::new(n, |i: int| ' ')
}

/// How one character of a block is rewritten when the block is indented:
/// a newline is followed by a fresh indentation run, any other character
/// stands unchanged.
pub open spec fn spec_indent_unit(c: char, n: nat) -> Seq<char> {
    if c == '\n' {
        seq!['\n'] + spec_spaces(n)
    } else {
        seq![c]
    }
}

/// The characters of `s` with every newline followed by `n` spaces.
pub open spec fn spec_indent_chars(s: Seq<char>, n: nat) -> Seq<char>
    decreases s.len(),
{
    if s.len() == 0 {
        Seq::empty()
    } else {
        spec_indent_unit(s[0], n) + spec_indent_chars(s.drop_first(), n)
    }
}

/// `s` indented by `n` spaces: every line of `s` gains `n` leading spaces.
pub open spec fn spec_indent(s: Seq<char>, n: nat) -> Seq<char> {
    spec_spaces(n) + spec_indent_chars(s, n)
}

proof fn lemma_indent_chars_concat(a: Seq<char>, b: Seq<char>, n: nat)
    ensures
        spec_indent_chars(a + b, n) == spec_indent_chars(a, n) + spec_indent_chars(b, n),
    decreases a.len(),
{
    if a.len() == 0 {
        assert(a + b =~= b);
        assert(spec_indent_chars(a, n) + spec_indent_chars(b, n) =~= spec_indent_chars(b, n));
    } else {
        assert((a + b).drop_first() =~= a.drop_first() + b);
        lemma_indent_chars_concat(a.drop_first(), b, n);
        assert(spec_indent_unit(a[0], n) + (spec_indent_chars(a.drop_first(), n)
            + spec_indent_chars(b, n)) =~= (spec_indent_unit(a[0], n) + spec_indent_chars(
            a.drop_first(),
            n,
        )) + spec_indent_chars(b, n));
    }
}

proof fn lemma_indent_chars_push(s: Seq<char>, n: nat, i: int)
    requires
        0 <= i < s.len(),
    ensures
        spec_indent_chars(s.take(i + 1), n) == spec_indent_chars(s.take(i), n) + spec_indent_unit(
            s[i],
            n,
        ),
{
    assert(s.take(i + 1) =~= s.take(i) + seq![s[i]]);
    lemma_indent_chars_concat(s.take(i), seq![s[i]], n);
    assert(seq![s[i]].drop_first() =~= Seq::<char>::empty());
    assert(spec_indent_chars(seq![s[i]], n) == spec_indent_unit(s[i], n) + spec_indent_chars(
        Seq::<char>::empty(),
        n,
    ));
    assert(spec_indent_unit(s[i], n) + Seq::<char>::empty() =~= spec_indent_unit(s[i], n));
}

/// A string of `n` spaces.
pub fn spaces(n: usize) -> (r: String)
    ensures
        r@ == spec_spaces(n as nat),
{
    proof {
        reveal_strlit(" ");
    }
    let mut out = String::new();
    let mut i: usize = 0;
    while i < n
        invariant
            i <= n,
            out@ == spec_spaces(i as nat),
            " "@ == seq![' '],
        decreases n - i,
    {
        out.append(" ");
        proof {
            assert(spec_spaces(i as nat) + seq![' '] =~= spec_spaces((i + 1) as nat));
        }
        i = i + 1;
    }
    out
}

/// Types whose text can be re-indented line by line.
pub trait Indent {
    /// The character sequence that `indent` operates on.
    spec fn text(&self) -> Seq<char>;

    /// Prefix every line of the text with `size` spaces.
    fn indent(&self, size: usize) -> (r: String)
        ensures
            r@ == spec_indent(self.text(), size as nat),
    ;
}

impl Indent for str {
    open spec fn text(&self) -> Seq<char> {
        self@
    }

    fn indent(&self, size: usize) -> (r: String) {
        proof {
            reveal_strlit("\n");
        }
        let mut out = spaces(size);
        let n = self.unicode_len();
        let mut i: usize = 0;
        while i < n
            invariant
                i <= n,
                n == self@.len(),
                out@ == spec_spaces(size as nat) + spec_indent_chars(self@.take(i as int), size as nat),
                "\n"@ == seq!['\n'],
            decreases n - i,
        {
            let c = self.get_char(i);
            if c == '\n' {
                out.append("\n");
                let sp = spaces(size);
                out.append(sp.as_str());
            } else {
                let piece = self.substring_char(i, i + 1);
                proof {
                    assert(piece@ =~= seq![c]);
                }
                out.append(piece);
            }
            proof {
                lemma_indent_chars_push(self@, size as nat, i as int);
            }
            i = i + 1;
        }
        proof {
            assert(self@.take(n as int) =~= self@);
        }
        out
    }
}

impl Indent for String {
    open spec fn text(&self) -> Seq<char> {
        self@
    }

    fn indent(&self, size: usize) -> (r: String) {
        self.as_str().indent(size)
    }
}

/// The lines of a text: the maximal newline-free segments obtained by
/// splitting on `'\n'`.  The empty text is one empty line, and a trailing
/// newline opens a final empty line.
pub open spec fn spec_lines(s: Seq<char>) -> Seq<Seq<char>>
    decreases s.len(),
{
    if s.len() == 0 {
        seq![Seq::<char>::empty()]
    } else {
        let rest = spec_lines(s.drop_first());
        if s[0] == '\n' {
            seq![Seq::<char>::empty()] + rest
        } else {
            seq![seq![s[0]] + rest[0]] + rest.drop_first()
        }
    }
}

/// A text always has at least one line.
proof fn lemma_lines_nonempty(s: Seq<char>)
    ensures
        spec_lines(s).len() >= 1,
    decreases s.len(),
{
    if s.len() > 0 {
        lemma_lines_nonempty(s.drop_first());
    }
}

/// Prepending a newline-free prefix extends the first line and leaves the
/// others.
proof fn lemma_lines_prepend(a: Seq<char>, t: Seq<char>)
    requires
        !a.contains('\n'),
    ensures
        spec_lines(a + t) == seq![a + spec_lines(t)[0]] + spec_lines(t).drop_first(),
    decreases a.len(),
{
    lemma_lines_nonempty(t);
    if a.len() == 0 {
        assert(a + t =~= t);
        assert(a + spec_lines(t)[0] =~= spec_lines(t)[0]);
        assert(seq![spec_lines(t)[0]] + spec_lines(t).drop_first() =~= spec_lines(t));
    } else {
        assert(a.drop_first().contains('\n') ==> a.contains('\n')) by {
            if a.drop_first().contains('\n') {
                let i = choose|i: int|
                    0 <= i < a.drop_first().len() && a.drop_first()[i] == '\n';
                assert(a[i + 1] == '\n');
            }
        }
        lemma_lines_prepend(a.drop_first(), t);
        assert((a + t).drop_first() =~= a.drop_first() + t);
        assert(a[0] != '\n') by {
            assert(a[0] == a[0] && 0 < a.len());
        }
        let rest = spec_lines(a.drop_first() + t);
        assert(spec_lines(a + t) == seq![seq![a[0]] + rest[0]] + rest.drop_first());
        assert(seq![a[0]] + (a.drop_first() + spec_lines(t)[0]) =~= a + spec_lines(t)[0]);
        assert(rest.drop_first() =~= spec_lines(t).drop_first());
        assert(spec_lines(a + t) =~= seq![a + spec_lines(t)[0]] + spec_lines(t).drop_first());
    }
}

/// A newline-free text is indented-in-place: rewriting its characters
/// changes nothing.
pub proof fn lemma_indent_chars_no_newline(s: Seq<char>, n: nat)
    requires
        !s.contains('\n'),
    ensures
        spec_indent_chars(s, n) == s,
    decreases s.len(),
{
    if s.len() > 0 {
        assert(s[0] != '\n') by {
            assert(s[0] == s[0] && 0 < s.len());
        }
        assert(s.drop_first().contains('\n') ==> s.contains('\n')) by {
            if s.drop_first().contains('\n') {
                let i = choose|i: int|
                    0 <= i < s.drop_first().len() && s.drop_first()[i] == '\n';
                assert(s[i + 1] == '\n');
            }
        }
        lemma_indent_chars_no_newline(s.drop_first(), n);
        assert(seq![s[0]] + s.drop_first() =~= s);
    }
}

/// No space is a newline, so an indentation run never holds one.
proof fn lemma_spaces_no_newline(n: nat)
    ensures
        !spec_spaces(n).contains('\n'),
{
    if spec_spaces(n).contains('\n') {
        let i = choose|i: int| 0 <= i < spec_spaces(n).len() && spec_spaces(n)[i] == '\n';
    }
}

/// The lines of a character-rewritten text: the first line stands
/// unchanged and every following line gains the indentation run.
proof fn lemma_indent_chars_lines(s: Seq<char>, n: nat)
    ensures
        spec_lines(spec_indent_chars(s, n)) == seq![spec_lines(s)[0]] + spec_lines(
            s,
        ).drop_first().map_values(|l: Seq<char>| spec_spaces(n) + l),
    decreases s.len(),
{
    lemma_lines_nonempty(s);
    if s.len() == 0 {
        assert(spec_lines(spec_indent_chars(s, n)) =~= seq![spec_lines(s)[0]] + spec_lines(
            s,
        ).drop_first().map_values(|l: Seq<char>| spec_spaces(n) + l));
    } else {
        let t = s.drop_first();
        lemma_indent_chars_lines(t, n);
        lemma_lines_nonempty(t);
        let f = |l: Seq<char>| spec_spaces(n) + l;
        if s[0] == '\n' {
            assert(spec_indent_chars(s, n) == (seq!['\n'] + spec_spaces(n))
                + spec_indent_chars(t, n));
            assert((seq!['\n'] + spec_spaces(n)) + spec_indent_chars(t, n) =~= seq!['\n'] + (
            spec_spaces(n) + spec_indent_chars(t, n)));
            let inner = spec_spaces(n) + spec_indent_chars(t, n);
            assert(spec_lines(seq!['\n'] + inner) == seq![Seq::<char>::empty()] + spec_lines(
                inner,
            )) by {
                assert((seq!['\n'] + inner).drop_first() =~= inner);
                assert((seq!['\n'] + inner)[0] == '\n');
            }
            lemma_spaces_no_newline(n);
            lemma_lines_prepend(spec_spaces(n), spec_indent_chars(t, n));
            lemma_lines_nonempty(spec_indent_chars(t, n));
            assert(spec_lines(spec_indent_chars(t, n))[0] == spec_lines(t)[0]);
            assert(spec_lines(inner) =~= seq![spec_spaces(n) + spec_lines(t)[0]] + spec_lines(
                t,
            ).drop_first().map_values(f));
            assert(spec_lines(s) == seq![Seq::<char>::empty()] + spec_lines(t)) by {
                assert(s.drop_first() == t && s[0] == '\n');
            }
            assert(spec_lines(s)[0] =~= Seq::<char>::empty());
            assert(spec_lines(s).drop_first() =~= spec_lines(t));
            assert(spec_lines(s).drop_first().map_values(f) =~= seq![spec_spaces(n)
                + spec_lines(t)[0]] + spec_lines(t).drop_first().map_values(f)) by {
                assert(spec_lines(t).map_values(f) =~= seq![f(spec_lines(t)[0])] + spec_lines(
                    t,
                ).drop_first().map_values(f));
            }
            assert(spec_lines(spec_indent_chars(s, n)) =~= seq![spec_lines(s)[0]] + spec_lines(
                s,
            ).drop_first().map_values(f));
        } else {
            assert(spec_indent_chars(s, n) == seq![s[0]] + spec_indent_chars(t, n));
            let ic = spec_indent_chars(t, n);
            assert(spec_lines(seq![s[0]] + ic) == seq![seq![s[0]] + spec_lines(ic)[0]]
                + spec_lines(ic).drop_first()) by {
                assert((seq![s[0]] + ic).drop_first() =~= ic);
                assert((seq![s[0]] + ic)[0] == s[0]);
                lemma_lines_nonempty(ic);
            }
            assert(spec_lines(ic)[0] == spec_lines(t)[0]);
            assert(spec_lines(ic).drop_first() =~= spec_lines(t).drop_first().map_values(f));
            assert(spec_lines(s) == seq![seq![s[0]] + spec_lines(t)[0]] + spec_lines(
                t,
            ).drop_first());
            assert(spec_lines(s)[0] == seq![s[0]] + spec_lines(t)[0]);
            assert(spec_lines(s).drop_first() =~= spec_lines(t).drop_first());
            assert(spec_lines(spec_indent_chars(s, n)) =~= seq![spec_lines(s)[0]] + spec_lines(
                s,
            ).drop_first().map_values(f));
        }
    }
}

/// Indenting a text by `n` spaces keeps its line count and rewrites every
/// line to `n` spaces followed by that line's own text, so each line
/// gains exactly `n` leading spaces and its content is otherwise kept.
pub proof fn lemma_indent_lines(s: Seq<char>, n: nat)
    ensures
        spec_lines(spec_indent(s, n)) == spec_lines(s).map_values(
            |l: Seq<char>| spec_spaces(n) + l,
        ),
        spec_lines(spec_indent(s, n)).len() == spec_lines(s).len(),
{
    let f = |l: Seq<char>| spec_spaces(n) + l;
    lemma_lines_nonempty(s);
    lemma_spaces_no_newline(n);
    lemma_indent_chars_lines(s, n);
    lemma_lines_prepend(spec_spaces(n), spec_indent_chars(s, n));
    lemma_lines_nonempty(spec_indent_chars(s, n));
    assert(spec_lines(spec_indent_chars(s, n))[0] == spec_lines(s)[0]);
    assert(spec_lines(spec_indent(s, n)) =~= seq![spec_spaces(n) + spec_lines(s)[0]]
        + spec_lines(s).drop_first().map_values(f));
    assert(spec_lines(s).map_values(f) =~= seq![f(spec_lines(s)[0])] + spec_lines(
        s,
    ).drop_first().map_values(f));
    assert(spec_lines(spec_indent(s, n)) =~= spec_lines(s).map_values(f));
}

/// `needle` occurs in `hay` starting at position `pos`.
pub open spec fn spec_is_substring_at(hay: Seq<char>, needle: Seq<char>, pos: int) -> bool {
    &&& 0 <= pos
    &&& pos + needle.len() <= hay.len()
    &&& hay.subrange(pos, pos + needle.len()) == needle
}

/// An occurrence within `b` is an occurrence within `a + b`, shifted by
/// the length of `a`.
pub proof fn lemma_substring_prepend(a: Seq<char>, b: Seq<char>, x: Seq<char>, pos: int)
    requires
        spec_is_substring_at(b, x, pos),
    ensures
        spec_is_substring_at(a + b, x, a.len() + pos),
{
    assert((a + b).subrange(a.len() + pos, a.len() + pos + x.len()) =~= b.subrange(
        pos,
        pos + x.len(),
    ));
}

/// An occurrence within `b` stands unmoved within `b + c`.
pub proof fn lemma_substring_append(b: Seq<char>, c: Seq<char>, x: Seq<char>, pos: int)
    requires
        spec_is_substring_at(b, x, pos),
    ensures
        spec_is_substring_at(b + c, x, pos),
{
    assert((b + c).subrange(pos, pos + x.len()) =~= b.subrange(pos, pos + x.len()));
}

/// The views of a sequence of strings.
pub open spec fn texts_of(items: Seq<String>) -> Seq<Seq<char>> {
    items.map_values(|s: String| s@)
}

/// The banner line that opens a titled section.
pub open spec fn spec_section_start(note: Seq<char>, n: nat) -> Seq<char> {
    seq!['\n'] + spec_spaces(n) + "%% "@ + note + " start"@
}

/// The banner line that closes a titled section.
pub open spec fn spec_section_end(note: Seq<char>, n: nat) -> Seq<char> {
    seq!['\n'] + spec_spaces(n) + "%% "@ + note + " end"@
}

/// The body of a section: each item on a fresh line, indented by `n`.
pub open spec fn spec_items_block(items: Seq<Seq<char>>, n: nat) -> Seq<char>
    decreases items.len(),
{
    if items.len() == 0 {
        Seq::empty()
    } else {
        seq!['\n'] + spec_indent(items[0], n) + spec_items_block(items.drop_first(), n)
    }
}

/// `curr` extended with a whole titled, indented, banner-delimited section.
pub open spec fn spec_append_items(
    curr: Seq<char>,
    items: Seq<Seq<char>>,
    note: Seq<char>,
    n: nat,
) -> Seq<char> {
    curr + spec_section_start(note, n) + spec_items_block(items, n) + spec_section_end(note, n)
}

proof fn lemma_items_block_concat(a: Seq<Seq<char>>, b: Seq<Seq<char>>, n: nat)
    ensures
        spec_items_block(a + b, n) == spec_items_block(a, n) + spec_items_block(b, n),
    decreases a.len(),
{
    if a.len() == 0 {
        assert(a + b =~= b);
        assert(spec_items_block(a, n) + spec_items_block(b, n) =~= spec_items_block(b, n));
    } else {
        assert((a + b).drop_first() =~= a.drop_first() + b);
        lemma_items_block_concat(a.drop_first(), b, n);
        assert((seq!['\n'] + spec_indent(a[0], n)) + (spec_items_block(a.drop_first(), n)
            + spec_items_block(b, n)) =~= ((seq!['\n'] + spec_indent(a[0], n))
            + spec_items_block(a.drop_first(), n)) + spec_items_block(b, n));
    }
}

pub proof fn lemma_items_block_push(items: Seq<Seq<char>>, n: nat, i: int)
    requires
        0 <= i < items.len(),
    ensures
        spec_items_block(items.take(i + 1), n) == spec_items_block(items.take(i), n) + (seq!['\n']
            + spec_indent(items[i], n)),
{
    assert(items.take(i + 1) =~= items.take(i) + seq![items[i]]);
    lemma_items_block_concat(items.take(i), seq![items[i]], n);
    assert(seq![items[i]].drop_first() =~= Seq::<Seq<char>>::empty());
    assert(spec_items_block(seq![items[i]], n) == (seq!['\n'] + spec_indent(items[i], n))
        + spec_items_block(Seq::<Seq<char>>::empty(), n));
    assert((seq!['\n'] + spec_indent(items[i], n)) + Seq::<char>::empty() =~= seq!['\n']
        + spec_indent(items[i], n));
}

/// Append a titled section to `curr`: an opening banner, every item of
/// `items` on its own line indented by `size` spaces, and a closing banner.
pub fn append_items(curr: String, items: &Vec<String>, note: &str, size: usize) -> (r: String)
    ensures
        r@ == spec_append_items(curr@, texts_of(items@), note@, size as nat),
{
    proof {
        reveal_strlit("\n");
    }
    let mut out = curr;
    out.append("\n");
    let sp = spaces(size);
    out.append(sp.as_str());
    out.append("%% ");
    out.append(note);
    out.append(" start");
    let ghost header = out@;
    let mut i: usize = 0;
    while i < items.len()
        invariant
            i <= items.len(),
            header == curr@ + spec_section_start(note@, size as nat),
            out@ == header + spec_items_block(texts_of(items@).take(i as int), size as nat),
            sp@ == spec_spaces(size as nat),
            "\n"@ == seq!['\n'],
        decreases items.len() - i,
    {
        out.append("\n");
        let line = items[i].as_str().indent(size);
        out.append(line.as_str());
        proof {
            lemma_items_block_push(texts_of(items@), size as nat, i as int);
        }
        i = i + 1;
    }
    proof {
        assert(texts_of(items@).take(items@.len() as int) =~= texts_of(items@));
    }
    out.append("\n");
    let sp2 = spaces(size);
    out.append(sp2.as_str());
    out.append("%% ");
    out.append(note);
    out.append(" end");
    out
}

} // verus!
