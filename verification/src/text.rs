//! Measured text: characters with their display widths, and the cutting
//! of text into lines, words and pieces that fit a width.

use unicode_width::UnicodeWidthChar;
use vstd::prelude::*;
use vstd::std_specs::iter::IteratorSpec;
use vstd::utf8::encode_utf8;

verus! {

/// `String::push` appends one character to the end of the string.
pub assume_specification[ String::push ](s: &mut String, ch: char)
    ensures
        final(s)@ == old(s)@.push(ch),
;

/// `String::push_str` appends the characters of `string` to the end.
pub assume_specification[ String::push_str ](s: &mut String, string: &str)
    ensures
        final(s)@ == old(s)@ + string@,
;

/// `String::pop` removes the last character and returns it, or returns
/// `None` and leaves the string as it is when it is empty.
pub assume_specification[ String::pop ](s: &mut String) -> (last: Option<char>)
    ensures
        old(s)@.len() == 0 ==> last is None && final(s)@ == old(s)@,
        old(s)@.len() > 0 ==> last == Some(old(s)@.last()) && final(s)@ == old(s)@.drop_last(),
;

/// Whether `c` has the Unicode property `White_Space`, as
/// `char::is_whitespace` reports it.
pub uninterp spec fn white_space(c: char) -> bool;

/// `char::is_whitespace` depends on the character alone. Below U+0080 the
/// characters with the property `White_Space` are the space and the
/// controls from the tabulator to the carriage return.
pub assume_specification[ char::is_whitespace ](c: char) -> (b: bool)
    ensures
        b == white_space(c),
        (c as u32) < 0x80 ==> b == (c == ' ' || 0x09 <= (c as u32) <= 0x0D),
;

/// The width in columns that `unicode_width::UnicodeWidthChar::width_cjk`
/// assigns to `c`; `None` for a control character.
pub uninterp spec fn cjk_width(c: char) -> Option<usize>;

/// Calls `unicode_width::UnicodeWidthChar::width_cjk`, which looks the
/// character up in fixed tables: the result depends on the character alone.
/// Below U+00A0 it consults no table: the characters from the space to the
/// tilde are one column wide, the others are control characters.
#[verifier::external_body]
fn char_width_cjk(c: char) -> (w: Option<usize>)
    ensures
        w == cjk_width(c),
        0x20 <= (c as u32) <= 0x7E ==> w == Some(1usize),
        (c as u32) < 0x20 || 0x7F <= (c as u32) < 0xA0 ==> w is None,
{
    UnicodeWidthChar::width_cjk(c)
}

/// Columns that `c` takes on screen. A control character counts as one.
pub open spec fn column_width(c: char) -> usize {
    match cjk_width(c) {
        Some(w) => w,
        None => 1,
    }
}

/// Columns that the characters of `s` take on screen together.
pub open spec fn display_width(s: Seq<char>) -> nat
    decreases s.len(),
{
    if s.len() == 0 {
        0
    } else {
        display_width(s.drop_last()) + column_width(s.last()) as nat
    }
}

/// Whether the measures of `c` are what is fixed for the characters of
/// its kind: from the space to the tilde a character takes one column, a
/// control character has no width of its own and so counts as one column,
/// and below U+0080 only the space and the controls from the tabulator to
/// the carriage return are whitespace. Of other characters this says nothing.
pub open spec fn plainly_measured(c: char) -> bool {
    &&& 0x20 <= (c as u32) <= 0x7E ==> cjk_width(c) == Some(1usize)
    &&& (c as u32) < 0x20 || 0x7F <= (c as u32) < 0xA0 ==> cjk_width(c) is None
    &&& (c as u32) < 0x80 ==> white_space(c) == (c == ' ' || 0x09 <= (c as u32) <= 0x0D)
}

/// Whether the measures of every character of `text` are what is fixed for
/// the characters of its kind.
pub open spec fn text_plainly_measured(text: Seq<char>) -> bool {
    forall|i: int| 0 <= i < text.len() ==> plainly_measured(#[trigger] text[i])
}

/// A character together with what layout needs to know of it.
#[derive(Debug, PartialEq, Eq, Clone, Copy, Structural)]
pub struct Glyph {
    /// The character.
    pub ch: char,
    /// Columns that it takes on screen.
    pub columns: usize,
    /// Whether it is whitespace.
    pub white: bool,
}

/// The glyph of `c`: the character with its own width and kind.
pub open spec fn glyph_of(c: char) -> Glyph {
    Glyph { ch: c, columns: column_width(c), white: white_space(c) }
}

/// The glyphs of the characters of `text`, in order.
pub open spec fn measured(text: Seq<char>) -> Seq<Glyph> {
    text.map_values(|c: char| glyph_of(c))
}

/// The characters of `glyphs`, in order.
pub open spec fn chars_of(glyphs: Seq<Glyph>) -> Seq<char> {
    glyphs.map_values(|g: Glyph| g.ch)
}

/// Whether each of `glyphs` carries the width and kind of its character.
pub open spec fn well_measured(glyphs: Seq<Glyph>) -> bool {
    forall|i: int| 0 <= i < glyphs.len() ==> #[trigger] glyphs[i] == glyph_of(glyphs[i].ch)
}

/// Columns that `glyphs` take on screen together.
pub open spec fn columns_of(glyphs: Seq<Glyph>) -> nat
    decreases glyphs.len(),
{
    if glyphs.len() == 0 {
        0
    } else {
        columns_of(glyphs.drop_last()) + glyphs.last().columns as nat
    }
}

/// How many leading glyphs of `glyphs` fit into `budget` columns.
pub open spec fn fit_count(glyphs: Seq<Glyph>, budget: nat) -> nat
    decreases glyphs.len(),
{
    if glyphs.len() == 0 || glyphs[0].columns > budget {
        0
    } else {
        1 + fit_count(glyphs.drop_first(), (budget - glyphs[0].columns) as nat)
    }
}

/// `glyphs` without the whitespace at their end.
pub open spec fn trim_end(glyphs: Seq<Glyph>) -> Seq<Glyph>
    decreases glyphs.len(),
{
    if glyphs.len() > 0 && glyphs.last().white {
        trim_end(glyphs.drop_last())
    } else {
        glyphs
    }
}

/// Whether `glyphs` hold anything but whitespace.
pub open spec fn has_ink(glyphs: Seq<Glyph>) -> bool {
    exists|i: int| 0 <= i < glyphs.len() && !(#[trigger] glyphs[i]).white
}

/// Length in bytes of the UTF-8 encoding of `s`, as `str::len` gives it.
pub open spec fn byte_len(s: Seq<char>) -> usize {
    encode_utf8(s).len() as usize
}

/// Length of the first line of `s`, its line feed included.
pub open spec fn first_line_len(s: Seq<char>) -> nat
    decreases s.len(),
{
    if s.len() == 0 {
        0
    } else if s[0] == '\n' {
        1
    } else {
        1 + first_line_len(s.drop_first())
    }
}

/// The first line lies within the text, and is not empty unless the text is.
pub proof fn lemma_first_line_len(s: Seq<char>)
    ensures
        first_line_len(s) <= s.len(),
        s.len() > 0 ==> first_line_len(s) > 0,
    decreases s.len(),
{
    if s.len() > 0 && s[0] != '\n' {
        lemma_first_line_len(s.drop_first());
    }
}

/// The lines of `s`, each with the line feed that ends it.
pub open spec fn lines_with_endings(s: Seq<char>) -> Seq<Seq<char>>
    decreases s.len(),
{
    if s.len() == 0 {
        Seq::empty()
    } else {
        proof {
            lemma_first_line_len(s);
        }
        seq![s.take(first_line_len(s) as int)] + lines_with_endings(
            s.skip(first_line_len(s) as int),
        )
    }
}

/// Length of `line` without the line feed at its end and the carriage
/// return before that line feed.
pub open spec fn stripped_len(line: Seq<char>) -> nat {
    if line.len() > 0 && line.last() == '\n' {
        if line.len() > 1 && line[line.len() - 2] == '\r' {
            (line.len() - 2) as nat
        } else {
            (line.len() - 1) as nat
        }
    } else {
        line.len()
    }
}

/// The lines of `glyphs` without their line endings. Lines end at a line
/// feed; a carriage return before it belongs to the ending.
pub open spec fn text_lines(glyphs: Seq<Glyph>) -> Seq<Seq<Glyph>>
    decreases glyphs.len(),
{
    if glyphs.len() == 0 {
        Seq::empty()
    } else {
        let n = first_line_len(chars_of(glyphs));
        proof {
            lemma_first_line_len(chars_of(glyphs));
        }
        seq![glyphs.take(stripped_len(chars_of(glyphs).take(n as int)) as int)] + text_lines(
            glyphs.skip(n as int),
        )
    }
}

/// How many leading glyphs of `glyphs` are whitespace (`white`) or are not
/// (`!white`).
pub open spec fn run_len(glyphs: Seq<Glyph>, white: bool) -> nat
    decreases glyphs.len(),
{
    if glyphs.len() == 0 || glyphs[0].white != white {
        0
    } else {
        1 + run_len(glyphs.drop_first(), white)
    }
}

/// A leading run is no longer than the text.
pub proof fn lemma_run_len(glyphs: Seq<Glyph>, white: bool)
    ensures
        run_len(glyphs, white) <= glyphs.len(),
    decreases glyphs.len(),
{
    if glyphs.len() > 0 && glyphs[0].white == white {
        lemma_run_len(glyphs.drop_first(), white);
    }
}

/// The words of `glyphs`: the longest runs of glyphs that are not
/// whitespace, in order.
pub open spec fn words(glyphs: Seq<Glyph>) -> Seq<Seq<Glyph>>
    decreases glyphs.len(),
{
    let rest = glyphs.skip(run_len(glyphs, true) as int);
    let n = run_len(rest, false);
    if n == 0 {
        Seq::empty()
    } else {
        proof {
            lemma_run_len(glyphs, true);
            lemma_run_len(rest, false);
        }
        seq![rest.take(n as int)] + words(rest.skip(n as int))
    }
}

/// `n` clipped to what a `usize` holds.
pub open spec fn clip(n: nat) -> usize {
    if n > usize::MAX {
        usize::MAX
    } else {
        n as usize
    }
}

/// A run of `n` spaces.
pub open spec fn spaces(n: nat) -> Seq<char> {
    Seq::new(n, |i: int| ' ')
}

/// `n` times the glyph `space`.
pub open spec fn blanks(n: nat, space: Glyph) -> Seq<Glyph> {
    Seq::new(n, |i: int| space)
}

/// The width of two texts joined is the sum of their widths.
pub proof fn lemma_display_width_concat(a: Seq<char>, b: Seq<char>)
    ensures
        display_width(a + b) == display_width(a) + display_width(b),
    decreases b.len(),
{
    if b.len() == 0 {
        assert(a + b =~= a);
    } else {
        lemma_display_width_concat(a, b.drop_last());
        assert((a + b).drop_last() =~= a + b.drop_last());
    }
}

/// One more glyph adds its columns.
pub proof fn lemma_columns_push(glyphs: Seq<Glyph>, g: Glyph)
    ensures
        columns_of(glyphs.push(g)) == columns_of(glyphs) + g.columns,
{
    assert(glyphs.push(g).drop_last() =~= glyphs);
}

/// The columns of two runs of glyphs joined are the sum of their columns.
pub proof fn lemma_columns_concat(a: Seq<Glyph>, b: Seq<Glyph>)
    ensures
        columns_of(a + b) == columns_of(a) + columns_of(b),
    decreases b.len(),
{
    if b.len() == 0 {
        assert(a + b =~= a);
    } else {
        lemma_columns_concat(a, b.drop_last());
        assert((a + b).drop_last() =~= a + b.drop_last());
    }
}

/// Glyphs that carry the widths of their characters take as many columns
/// as their characters are wide on screen.
pub proof fn lemma_columns_are_display_width(glyphs: Seq<Glyph>)
    requires
        well_measured(glyphs),
    ensures
        columns_of(glyphs) == display_width(chars_of(glyphs)),
    decreases glyphs.len(),
{
    if glyphs.len() > 0 {
        assert(glyphs.drop_last().len() < glyphs.len());
        assert forall|i: int| 0 <= i < glyphs.drop_last().len() implies #[trigger] glyphs.drop_last()[i]
            == glyph_of(glyphs.drop_last()[i].ch) by {
            assert(glyphs.drop_last()[i] == glyphs[i]);
        }
        lemma_columns_are_display_width(glyphs.drop_last());
        assert(chars_of(glyphs).drop_last() =~= chars_of(glyphs.drop_last()));
        assert(glyphs.last() == glyph_of(glyphs.last().ch));
    } else {
        assert(chars_of(glyphs) =~= Seq::<char>::empty());
    }
}

/// The glyphs of a text carry the widths of its characters and spell it
/// out.
pub proof fn lemma_measured(text: Seq<char>)
    ensures
        well_measured(measured(text)),
        chars_of(measured(text)) == text,
        measured(text).len() == text.len(),
{
    assert(chars_of(measured(text)) =~= text);
}

/// The leading glyphs that `fit_count` counts take at most `budget`
/// columns, and the next glyph, if there is one, no longer fits.
pub proof fn lemma_fit_count(glyphs: Seq<Glyph>, budget: nat)
    ensures
        fit_count(glyphs, budget) <= glyphs.len(),
        columns_of(glyphs.take(fit_count(glyphs, budget) as int)) <= budget,
        fit_count(glyphs, budget) < glyphs.len() ==> columns_of(
            glyphs.take(fit_count(glyphs, budget) as int + 1),
        ) > budget,
    decreases glyphs.len(),
{
    if glyphs.len() == 0 || glyphs[0].columns > budget {
        assert(glyphs.take(0) =~= Seq::<Glyph>::empty());
        if glyphs.len() > 0 {
            assert(glyphs.take(1) =~= Seq::<Glyph>::empty().push(glyphs[0]));
            lemma_columns_push(Seq::<Glyph>::empty(), glyphs[0]);
        }
    } else {
        let w = glyphs[0].columns;
        let rest = glyphs.drop_first();
        let k = fit_count(rest, (budget - w) as nat);
        lemma_fit_count(rest, (budget - w) as nat);
        let head = seq![glyphs[0]];
        assert(head =~= Seq::<Glyph>::empty().push(glyphs[0]));
        lemma_columns_push(Seq::<Glyph>::empty(), glyphs[0]);
        assert(glyphs.take(k as int + 1) =~= head + rest.take(k as int));
        lemma_columns_concat(head, rest.take(k as int));
        if k < rest.len() {
            assert(glyphs.take(k as int + 2) =~= head + rest.take(k as int + 1));
            lemma_columns_concat(head, rest.take(k as int + 1));
        }
    }
}

/// Trimming removes glyphs from the end only, and what is left does not
/// end in whitespace.
pub proof fn lemma_trim_end_prefix(glyphs: Seq<Glyph>)
    ensures
        trim_end(glyphs).len() <= glyphs.len(),
        trim_end(glyphs) == glyphs.take(trim_end(glyphs).len() as int),
        columns_of(trim_end(glyphs)) <= columns_of(glyphs),
        trim_end(glyphs).len() > 0 ==> !trim_end(glyphs).last().white,
    decreases glyphs.len(),
{
    if glyphs.len() > 0 && glyphs.last().white {
        lemma_trim_end_prefix(glyphs.drop_last());
        let t = trim_end(glyphs);
        assert(glyphs.drop_last().take(t.len() as int) =~= glyphs.take(t.len() as int));
    } else {
        assert(glyphs.take(glyphs.len() as int) =~= glyphs);
    }
}

/// Trimming keeps everything up to the last glyph that is not whitespace.
pub proof fn lemma_trim_end_keeps_ink(glyphs: Seq<Glyph>, i: int)
    requires
        0 <= i < glyphs.len(),
        !glyphs[i].white,
    ensures
        trim_end(glyphs).len() > i,
    decreases glyphs.len(),
{
    if glyphs.last().white {
        lemma_trim_end_keeps_ink(glyphs.drop_last(), i);
    }
}

/// The characters of `s`, in order.
pub fn to_chars(s: &str) -> (chars: Vec<char>)
    ensures
        chars@ == s@,
{
    broadcast use vstd::string::group_string_axioms;

    let mut chars: Vec<char> = Vec::new();
    let mut it = s.chars();
    loop
        invariant
            chars@ + it.remaining() == s@,
            it.decrease() is Some,
        ensures
            chars@ == s@,
        decreases it.decrease()->0,
    {
        match it.next() {
            Some(c) => {
                chars.push(c);
                assert(chars@ + it.remaining() =~= s@);
            },
            None => {
                assert(chars@ =~= s@);
                break ;
            },
        }
    }
    chars
}

/// The string made of the characters of `chars` from `from` up to `to`.
pub(crate) fn from_chars(chars: &Vec<char>, from: usize, to: usize) -> (s: String)
    requires
        from <= to <= chars.len(),
    ensures
        s@ == chars@.subrange(from as int, to as int),
{
    let mut s = String::new();
    let mut i: usize = from;
    while i < to
        invariant
            from <= i <= to <= chars.len(),
            s@ == chars@.subrange(from as int, i as int),
        decreases to - i,
    {
        s.push(chars[i]);
        i += 1;
        assert(s@ =~= chars@.subrange(from as int, i as int));
    }
    s
}

/// The string that the glyphs of `glyphs` from `from` up to `to` spell.
pub(crate) fn from_glyphs(glyphs: &Vec<Glyph>, from: usize, to: usize) -> (s: String)
    requires
        from <= to <= glyphs.len(),
    ensures
        s@ == chars_of(glyphs@.subrange(from as int, to as int)),
{
    let mut s = String::new();
    let mut i: usize = from;
    assert(s@ =~= chars_of(glyphs@.subrange(from as int, from as int)));
    while i < to
        invariant
            from <= i <= to <= glyphs.len(),
            s@ == chars_of(glyphs@.subrange(from as int, i as int)),
        decreases to - i,
    {
        s.push(glyphs[i].ch);
        i += 1;
        assert(s@ =~= chars_of(glyphs@.subrange(from as int, i as int)));
    }
    s
}

/// The characters that `glyphs` spell.
pub fn glyph_chars(glyphs: &Vec<Glyph>) -> (chars: Vec<char>)
    ensures
        chars@ == chars_of(glyphs@),
{
    let mut chars: Vec<char> = Vec::new();
    let mut i: usize = 0;
    while i < glyphs.len()
        invariant
            i <= glyphs.len(),
            chars@ == chars_of(glyphs@.take(i as int)),
        decreases glyphs.len() - i,
    {
        chars.push(glyphs[i].ch);
        i += 1;
        assert(chars@ =~= chars_of(glyphs@.take(i as int)));
    }
    assert(glyphs@.take(i as int) =~= glyphs@);
    chars
}

/// Columns that `c` takes on screen: one for a character from the space to
/// the tilde and for a control character.
pub fn char_columns(c: char) -> (w: usize)
    ensures
        w == column_width(c),
        (c as u32) < 0xA0 ==> w == 1,
{
    match char_width_cjk(c) {
        Some(w) => w,
        None => 1,
    }
}

/// The glyph of `c`.
pub fn measure_char(c: char) -> (g: Glyph)
    ensures
        g == glyph_of(c),
        plainly_measured(c),
{
    let white = c.is_whitespace();
    let width = char_width_cjk(c);
    Glyph {
        ch: c,
        columns: match width {
            Some(w) => w,
            None => 1,
        },
        white,
    }
}

/// The glyphs of `chars`.
pub fn measure_chars(chars: &Vec<char>) -> (glyphs: Vec<Glyph>)
    ensures
        glyphs@ == measured(chars@),
        text_plainly_measured(chars@),
{
    let mut glyphs: Vec<Glyph> = Vec::new();
    let mut i: usize = 0;
    while i < chars.len()
        invariant
            i <= chars.len(),
            glyphs@ == measured(chars@.take(i as int)),
            forall|k: int| 0 <= k < i ==> plainly_measured(#[trigger] chars@[k]),
        decreases chars.len() - i,
    {
        glyphs.push(measure_char(chars[i]));
        i += 1;
        assert(glyphs@ =~= measured(chars@.take(i as int)));
    }
    assert(chars@.take(i as int) =~= chars@);
    glyphs
}

/// The glyphs of `text`.
pub fn measure(text: &str) -> (glyphs: Vec<Glyph>)
    ensures
        glyphs@ == measured(text@),
        text_plainly_measured(text@),
{
    let chars = to_chars(text);
    measure_chars(&chars)
}

/// Counts how many glyphs of `glyphs`, starting at `from`, fit into
/// `budget` columns.
pub(crate) fn fit_end(glyphs: &Vec<Glyph>, from: usize, budget: usize) -> (end: usize)
    requires
        from <= glyphs.len(),
    ensures
        from <= end <= glyphs.len(),
        end - from == fit_count(glyphs@.skip(from as int), budget as nat),
{
    let mut end: usize = from;
    let mut left: usize = budget;
    while end < glyphs.len()
        invariant
            from <= end <= glyphs.len(),
            left <= budget,
            fit_count(glyphs@.skip(from as int), budget as nat) == (end - from) + fit_count(
                glyphs@.skip(end as int),
                left as nat,
            ),
        ensures
            from <= end <= glyphs.len(),
            end - from == fit_count(glyphs@.skip(from as int), budget as nat),
        decreases glyphs.len() - end,
    {
        let w = glyphs[end].columns;
        assert(glyphs@.skip(end as int)[0] == glyphs@[end as int]);
        if w > left {
            break ;
        }
        assert(glyphs@.skip(end as int).drop_first() =~= glyphs@.skip(end as int + 1));
        left = left - w;
        end += 1;
    }
    end
}

/// Index just behind `glyphs[from..to]` once the whitespace at its end is
/// removed.
pub(crate) fn trim_end_index(glyphs: &Vec<Glyph>, from: usize, to: usize) -> (end: usize)
    requires
        from <= to <= glyphs.len(),
    ensures
        from <= end <= to,
        glyphs@.subrange(from as int, end as int) == trim_end(
            glyphs@.subrange(from as int, to as int),
        ),
{
    let mut end: usize = to;
    while end > from && glyphs[end - 1].white
        invariant
            from <= end <= to <= glyphs.len(),
            trim_end(glyphs@.subrange(from as int, to as int)) == trim_end(
                glyphs@.subrange(from as int, end as int),
            ),
        decreases end,
    {
        assert(glyphs@.subrange(from as int, end as int).drop_last() =~= glyphs@.subrange(
            from as int,
            end as int - 1,
        ));
        end -= 1;
    }
    end
}

/// Columns of `glyphs[from..to]`, clipped to what a `usize` holds.
pub(crate) fn columns_between(glyphs: &Vec<Glyph>, from: usize, to: usize) -> (w: usize)
    requires
        from <= to <= glyphs.len(),
    ensures
        w == clip(columns_of(glyphs@.subrange(from as int, to as int))),
{
    let mut w: usize = 0;
    let mut i: usize = from;
    while i < to
        invariant
            from <= i <= to <= glyphs.len(),
            w == clip(columns_of(glyphs@.subrange(from as int, i as int))),
        decreases to - i,
    {
        proof {
            lemma_columns_push(glyphs@.subrange(from as int, i as int), glyphs@[i as int]);
            assert(glyphs@.subrange(from as int, i as int).push(glyphs@[i as int])
                =~= glyphs@.subrange(from as int, i as int + 1));
        }
        w = w.saturating_add(glyphs[i].columns);
        i += 1;
    }
    w
}

/// Whether `glyphs[from..to]` take at most `budget` columns.
pub(crate) fn columns_within(glyphs: &Vec<Glyph>, from: usize, to: usize, budget: usize) -> (ok:
    bool)
    requires
        from <= to <= glyphs.len(),
    ensures
        ok == (columns_of(glyphs@.subrange(from as int, to as int)) <= budget),
{
    let ghost all = glyphs@.subrange(from as int, to as int);
    let mut left: usize = budget;
    let mut i: usize = from;
    assert(glyphs@.subrange(from as int, from as int) =~= Seq::<Glyph>::empty());
    while i < to
        invariant
            from <= i <= to <= glyphs.len(),
            all == glyphs@.subrange(from as int, to as int),
            left <= budget,
            columns_of(glyphs@.subrange(from as int, i as int)) + left == budget,
        decreases to - i,
    {
        let ghost before = glyphs@.subrange(from as int, i as int);
        let ghost after = glyphs@.subrange(from as int, i as int + 1);
        proof {
            lemma_columns_push(before, glyphs@[i as int]);
            assert(before.push(glyphs@[i as int]) =~= after);
        }
        if glyphs[i].columns > left {
            proof {
                assert(all =~= after + glyphs@.subrange(i as int + 1, to as int));
                lemma_columns_concat(after, glyphs@.subrange(i as int + 1, to as int));
            }
            return false;
        }
        left = left - glyphs[i].columns;
        i += 1;
    }
    true
}

/// Index just behind the first line of `chars[from..]`, its line feed
/// included.
pub(crate) fn line_end(chars: &Vec<char>, from: usize) -> (end: usize)
    requires
        from <= chars.len(),
    ensures
        from <= end <= chars.len(),
        end - from == first_line_len(chars@.skip(from as int)),
{
    let mut end: usize = from;
    while end < chars.len() && chars[end] != '\n'
        invariant
            from <= end <= chars.len(),
            first_line_len(chars@.skip(from as int)) == (end - from) + first_line_len(
                chars@.skip(end as int),
            ),
        decreases chars.len() - end,
    {
        assert(chars@.skip(end as int).drop_first() =~= chars@.skip(end as int + 1));
        end += 1;
    }
    if end < chars.len() {
        end += 1;
    }
    end
}

/// Index just behind `chars[from..to]` once its line ending is removed.
pub(crate) fn strip_ending_index(chars: &Vec<char>, from: usize, to: usize) -> (end: usize)
    requires
        from <= to <= chars.len(),
    ensures
        from <= end <= to,
        end - from == stripped_len(chars@.subrange(from as int, to as int)),
{
    if to > from && chars[to - 1] == '\n' {
        if to - 1 > from && chars[to - 2] == '\r' {
            to - 2
        } else {
            to - 1
        }
    } else {
        to
    }
}

/// Index just behind the leading run of whitespace (`white`) or of other
/// glyphs (`!white`) in `glyphs[from..to]`.
pub(crate) fn run_end(glyphs: &Vec<Glyph>, from: usize, to: usize, white: bool) -> (end: usize)
    requires
        from <= to <= glyphs.len(),
    ensures
        from <= end <= to,
        end - from == run_len(glyphs@.subrange(from as int, to as int), white),
{
    let mut end: usize = from;
    while end < to && glyphs[end].white == white
        invariant
            from <= end <= to <= glyphs.len(),
            run_len(glyphs@.subrange(from as int, to as int), white) == (end - from) + run_len(
                glyphs@.subrange(end as int, to as int),
                white,
            ),
        decreases to - end,
    {
        assert(glyphs@.subrange(end as int, to as int).drop_first() =~= glyphs@.subrange(
            end as int + 1,
            to as int,
        ));
        end += 1;
    }
    end
}

} // verus!
