//! Conversion of an entry's HTML description into chat markup.
//!
//! The description is rewritten in five passes, each a left-to-right scan:
//! the leading duplicate-timestamp line is dropped, line breaks become
//! newlines, and bold, italic and strikethrough spans become `**…**`,
//! `*…*` and `~~…~~`. Tag names match case-insensitively and tolerate
//! whitespace before the closing `>`.
use vstd::prelude::*;
use vstd::std_specs::iter::IteratorSpec;

verus! {

/// The whitespace characters accepted inside a tag.
pub open spec fn is_space(c: char) -> bool {
    let v = c as u32;
    (9 <= v && v <= 13) || v == 32 || v == 0x85 || v == 0xA0 || v == 0x1680 || (0x2000 <= v
        && v <= 0x200A) || v == 0x2028 || v == 0x2029 || v == 0x202F || v == 0x205F || v == 0x3000
}

/// `c` is the lower-case letter `x` under simple case folding.
pub open spec fn folds_to(c: char, x: char) -> bool {
    c == x || (c as u32) + 32 == (x as u32) || (x == 's' && (c as u32) == 0x17F)
}

/// The end of the run of whitespace that starts at `i`.
pub open spec fn space_end(s: Seq<char>, i: int) -> int
    decreases s.len() - i,
{
    if 0 <= i < s.len() && is_space(s[i]) {
        space_end(s, i + 1)
    } else {
        i
    }
}

/// The end of a `<br>` tag at `i` (`<br/>` only, if `slash_required`).
pub open spec fn break_end(s: Seq<char>, i: int, slash_required: bool) -> Option<int> {
    if 0 <= i && i + 2 < s.len() && s[i] == '<' && folds_to(s[i + 1], 'b') && folds_to(
        s[i + 2],
        'r',
    ) {
        let k = space_end(s, i + 3);
        if k < s.len() && s[k] == '/' {
            if k + 1 < s.len() && s[k + 1] == '>' {
                Some(k + 2)
            } else {
                None
            }
        } else if !slash_required && k < s.len() && s[k] == '>' {
            Some(k + 1)
        } else {
            None
        }
    } else {
        None
    }
}

/// The end of an opening tag `<x>` at `i`.
pub open spec fn open_end(s: Seq<char>, i: int, x: char) -> Option<int> {
    if 0 <= i && i + 1 < s.len() && s[i] == '<' && folds_to(s[i + 1], x) {
        let k = space_end(s, i + 2);
        if k < s.len() && s[k] == '>' {
            Some(k + 1)
        } else {
            None
        }
    } else {
        None
    }
}

/// The end of a closing tag `</x>` at `i`.
pub open spec fn close_end(s: Seq<char>, i: int, x: char) -> Option<int> {
    if 0 <= i && i + 2 < s.len() && s[i] == '<' && s[i + 1] == '/' && folds_to(s[i + 2], x) {
        let k = space_end(s, i + 3);
        if k < s.len() && s[k] == '>' {
            Some(k + 1)
        } else {
            None
        }
    } else {
        None
    }
}

/// The first closing tag `</x>` at or after `j`: its start and its end.
pub open spec fn first_close(s: Seq<char>, j: int, x: char) -> Option<(int, int)>
    decreases s.len() - j,
{
    if 0 <= j < s.len() {
        match close_end(s, j, x) {
            Some(e) => Some((j, e)),
            None => first_close(s, j + 1, x),
        }
    } else {
        None
    }
}

/// Where the leading segment ends: the end of the last `<br/>`, whitespace,
/// `<br/>` sequence that starts before `n`.
pub open spec fn last_double_break(s: Seq<char>, n: nat) -> Option<int>
    decreases n,
{
    if n == 0 {
        None
    } else {
        let p = n - 1;
        match break_end(s, p, true) {
            Some(a) => match break_end(s, space_end(s, a), true) {
                Some(e) => Some(e),
                None => last_double_break(s, (n - 1) as nat),
            },
            None => last_double_break(s, (n - 1) as nat),
        }
    }
}

/// The first newline at or after `i`, or the length of `s`.
pub open spec fn line_end(s: Seq<char>, i: int) -> int
    decreases s.len() - i,
{
    if 0 <= i < s.len() && s[i] != '\n' {
        line_end(s, i + 1)
    } else {
        i
    }
}

/// First pass: where the first line holds two consecutive breaks, drop
/// everything up to and including the second of them.
pub open spec fn strip_leading(s: Seq<char>) -> Seq<char> {
    match last_double_break(s, (line_end(s, 0) + 1) as nat) {
        Some(e) => s.subrange(e, s.len() as int),
        None => s,
    }
}

/// Second pass, from position `i`: each `<br>` or `<br/>` becomes a newline.
pub open spec fn breaks_from(s: Seq<char>, i: int) -> Seq<char>
    decreases s.len() - i,
{
    if 0 <= i < s.len() {
        match break_end(s, i, false) {
            Some(e) => if e > i {
                seq!['\n'] + breaks_from(s, e)
            } else {
                seq![s[i]] + breaks_from(s, i + 1)
            },
            None => seq![s[i]] + breaks_from(s, i + 1),
        }
    } else {
        Seq::empty()
    }
}

/// A span pass, from position `i`: each `<x>…</x>` becomes `m…m`, the span
/// ending at the first closing tag after its opening one.
pub open spec fn spans_from(s: Seq<char>, i: int, x: char, m: Seq<char>) -> Seq<char>
    decreases s.len() - i,
{
    if 0 <= i < s.len() {
        match open_end(s, i, x) {
            Some(o) => match first_close(s, o, x) {
                Some((j, e)) => if i < o <= j < e <= s.len() {
                    m + s.subrange(o, j) + m + spans_from(s, e, x, m)
                } else {
                    seq![s[i]] + spans_from(s, i + 1, x, m)
                },
                None => seq![s[i]] + spans_from(s, i + 1, x, m),
            },
            None => seq![s[i]] + spans_from(s, i + 1, x, m),
        }
    } else {
        Seq::empty()
    }
}

pub open spec fn bold_marker() -> Seq<char> {
    seq!['*', '*']
}

pub open spec fn italic_marker() -> Seq<char> {
    seq!['*']
}

pub open spec fn strike_marker() -> Seq<char> {
    seq!['~', '~']
}

/// The whole transform: the five passes in order.
pub open spec fn markdown(s: Seq<char>) -> Seq<char> {
    let a = strip_leading(s);
    let b = breaks_from(a, 0);
    let c = spans_from(b, 0, 'b', bold_marker());
    let d = spans_from(c, 0, 'i', italic_marker());
    spans_from(d, 0, 's', strike_marker())
}

pub open spec fn opt_int(o: Option<usize>) -> Option<int> {
    match o {
        Some(e) => Some(e as int),
        None => None,
    }
}

fn is_space_char(c: char) -> (r: bool)
    ensures
        r == is_space(c),
{
    let v = c as u32;
    (9 <= v && v <= 13) || v == 32 || v == 0x85 || v == 0xA0 || v == 0x1680 || (0x2000 <= v && v
        <= 0x200A) || v == 0x2028 || v == 0x2029 || v == 0x202F || v == 0x205F || v == 0x3000
}

fn folds(c: char, x: char) -> (r: bool)
    requires
        (x as u32) >= 32,
    ensures
        r == folds_to(c, x),
{
    let v = c as u32;
    c == x || (v < 0x11_0000 && v + 32 == x as u32) || (x == 's' && v == 0x17F)
}

fn skip_spaces(s: &Vec<char>, i: usize) -> (r: usize)
    requires
        i <= s.len(),
    ensures
        r as int == space_end(s@, i as int),
        i <= r <= s.len(),
{
    let mut k = i;
    while k < s.len() && is_space_char(s[k])
        invariant
            i <= k <= s.len(),
            space_end(s@, k as int) == space_end(s@, i as int),
        decreases s.len() - k,
    {
        k += 1;
    }
    k
}

fn match_break(s: &Vec<char>, i: usize, slash_required: bool) -> (r: Option<usize>)
    requires
        i <= s.len(),
    ensures
        opt_int(r) == break_end(s@, i as int, slash_required),
        r matches Some(e) ==> i < e <= s.len(),
{
    if i < s.len() && s.len() - i > 2 && s[i] == '<' && folds(s[i + 1], 'b') && folds(
        s[i + 2],
        'r',
    ) {
        let k = skip_spaces(s, i + 3);
        if k < s.len() && s[k] == '/' {
            if k + 1 < s.len() && s[k + 1] == '>' {
                Some(k + 2)
            } else {
                None
            }
        } else if !slash_required && k < s.len() && s[k] == '>' {
            Some(k + 1)
        } else {
            None
        }
    } else {
        None
    }
}

fn match_open(s: &Vec<char>, i: usize, x: char) -> (r: Option<usize>)
    requires
        i <= s.len(),
        (x as u32) >= 32,
    ensures
        opt_int(r) == open_end(s@, i as int, x),
        r matches Some(e) ==> i < e <= s.len(),
{
    if i < s.len() && s.len() - i > 1 && s[i] == '<' && folds(s[i + 1], x) {
        let k = skip_spaces(s, i + 2);
        if k < s.len() && s[k] == '>' {
            Some(k + 1)
        } else {
            None
        }
    } else {
        None
    }
}

fn match_close(s: &Vec<char>, i: usize, x: char) -> (r: Option<usize>)
    requires
        i <= s.len(),
        (x as u32) >= 32,
    ensures
        opt_int(r) == close_end(s@, i as int, x),
        r matches Some(e) ==> i < e <= s.len(),
{
    if i < s.len() && s.len() - i > 2 && s[i] == '<' && s[i + 1] == '/' && folds(s[i + 2], x) {
        let k = skip_spaces(s, i + 3);
        if k < s.len() && s[k] == '>' {
            Some(k + 1)
        } else {
            None
        }
    } else {
        None
    }
}

fn find_close(s: &Vec<char>, from: usize, x: char) -> (r: Option<(usize, usize)>)
    requires
        from <= s.len(),
        (x as u32) >= 32,
    ensures
        match r {
            Some((j, e)) => first_close(s@, from as int, x) == Some((j as int, e as int)) && from
                <= j < e <= s.len(),
            None => first_close(s@, from as int, x) is None,
        },
{
    let mut j = from;
    while j < s.len()
        invariant
            from <= j <= s.len(),
            (x as u32) >= 32,
            first_close(s@, j as int, x) == first_close(s@, from as int, x),
        decreases s.len() - j,
    {
        match match_close(s, j, x) {
            Some(e) => {
                return Some((j, e));
            },
            None => {
                j += 1;
            },
        }
    }
    None
}

fn push_range(out: &mut Vec<char>, s: &Vec<char>, from: usize, to: usize)
    requires
        from <= to <= s.len(),
    ensures
        final(out)@ == old(out)@ + s@.subrange(from as int, to as int),
{
    let mut k = from;
    while k < to
        invariant
            from <= k <= to <= s.len(),
            out@ == old(out)@ + s@.subrange(from as int, k as int),
        decreases to - k,
    {
        out.push(s[k]);
        assert(s@.subrange(from as int, k + 1) == s@.subrange(from as int, k as int) + seq![
            s@[k as int],
        ]);
        k += 1;
    }
}

fn strip_leading_chars(s: &Vec<char>) -> (r: Vec<char>)
    ensures
        r@ == strip_leading(s@),
{
    let mut le: usize = 0;
    while le < s.len() && s[le] != '\n'
        invariant
            le <= s.len(),
            line_end(s@, le as int) == line_end(s@, 0),
        decreases s.len() - le,
    {
        le += 1;
    }
    // No break starts at the end of the line itself.
    assert(break_end(s@, le as int, true) is None);
    // Scan candidate starts from the end of the first line down to zero.
    let mut n: usize = le;
    while n > 0
        invariant
            n <= le <= s.len(),
            le as int == line_end(s@, 0),
            last_double_break(s@, n as nat) == last_double_break(s@, (le + 1) as nat),
        decreases n,
    {
        let q = n - 1;
        if let Some(a) = match_break(s, q, true) {
            let k = skip_spaces(s, a);
            if let Some(e) = match_break(s, k, true) {
                let mut out: Vec<char> = Vec::new();
                push_range(&mut out, s, e, s.len());
                return out;
            }
        }
        n = q;
    }
    let mut out: Vec<char> = Vec::new();
    push_range(&mut out, s, 0, s.len());
    assert(out@ =~= s@);
    out
}

fn breaks_to_newlines(s: &Vec<char>) -> (r: Vec<char>)
    ensures
        r@ == breaks_from(s@, 0),
{
    let mut out: Vec<char> = Vec::new();
    let mut i: usize = 0;
    while i < s.len()
        invariant
            i <= s.len(),
            out@ + breaks_from(s@, i as int) == breaks_from(s@, 0),
        decreases s.len() - i,
    {
        let ghost before = out@;
        match match_break(s, i, false) {
            Some(e) => {
                out.push('\n');
                assert(before + breaks_from(s@, i as int) == out@ + breaks_from(s@, e as int));
                i = e;
            },
            None => {
                out.push(s[i]);
                assert(before + breaks_from(s@, i as int) == out@ + breaks_from(
                    s@,
                    i + 1 as int,
                ));
                i += 1;
            },
        }
    }
    assert(out@ + breaks_from(s@, i as int) =~= out@);
    out
}

fn convert_spans(s: &Vec<char>, x: char, m: &Vec<char>) -> (r: Vec<char>)
    requires
        (x as u32) >= 32,
    ensures
        r@ == spans_from(s@, 0, x, m@),
{
    let mut out: Vec<char> = Vec::new();
    let mut i: usize = 0;
    while i < s.len()
        invariant
            i <= s.len(),
            (x as u32) >= 32,
            out@ + spans_from(s@, i as int, x, m@) == spans_from(s@, 0, x, m@),
        decreases s.len() - i,
    {
        let ghost before = out@;
        let mut next: usize = i + 1;
        let mut done = false;
        if let Some(o) = match_open(s, i, x) {
            if let Some((j, e)) = find_close(s, o, x) {
                push_range(&mut out, m, 0, m.len());
                push_range(&mut out, s, o, j);
                push_range(&mut out, m, 0, m.len());
                assert(m@.subrange(0, m@.len() as int) =~= m@);
                assert(before + spans_from(s@, i as int, x, m@) =~= out@ + spans_from(
                    s@,
                    e as int,
                    x,
                    m@,
                ));
                next = e;
                done = true;
            }
        }
        if !done {
            out.push(s[i]);
            assert(before + spans_from(s@, i as int, x, m@) =~= out@ + spans_from(
                s@,
                i + 1 as int,
                x,
                m@,
            ));
        }
        i = next;
    }
    assert(out@ + spans_from(s@, i as int, x, m@) =~= out@);
    out
}

/// The transform on characters.
pub fn markdown_chars(s: &Vec<char>) -> (r: Vec<char>)
    ensures
        r@ == markdown(s@),
{
    let a = strip_leading_chars(s);
    let b = breaks_to_newlines(&a);
    let bold = vec!['*', '*'];
    let italic = vec!['*'];
    let strike = vec!['~', '~'];
    assert(bold@ =~= bold_marker());
    assert(italic@ =~= italic_marker());
    assert(strike@ =~= strike_marker());
    let c = convert_spans(&b, 'b', &bold);
    let d = convert_spans(&c, 'i', &italic);
    convert_spans(&d, 's', &strike)
}

/// The characters of `s`, in order.
pub(crate) fn chars_of(s: &str) -> (r: Vec<char>)
    ensures
        r@ == s@,
{
    broadcast use vstd::string::group_string_axioms;

    let mut it = s.chars();
    let mut out: Vec<char> = Vec::new();
    loop
        invariant
            it.obeys_prophetic_iter_laws(),
            out@ + it.remaining() == s@,
            it.decrease() is Some,
        ensures
            out@ == s@,
        decreases it.decrease()->0,
    {
        match it.next() {
            Some(c) => {
                let ghost before = out@;
                out.push(c);
                assert(before + seq![c] + it.remaining() =~= before + (seq![c] + it.remaining()));
            },
            None => {
                assert(it.remaining().len() == 0);
                assert(out@ + it.remaining() =~= out@);
                break;
            },
        }
    }
    out
}

/// Relies on `String`'s `FromIterator<char>`: the characters in order.
#[verifier::external_body]
pub(crate) fn string_of(v: &Vec<char>) -> (r: String)
    ensures
        r@ == v@,
{
    v.iter().collect()
}

/// Converts an HTML description into chat markup (see [`markdown`]).
pub fn html_to_discord_markdown(input: &str) -> (r: String)
    ensures
        r@ == markdown(input@),
{
    let chars = chars_of(input);
    string_of(&markdown_chars(&chars))
}

} // verus!
