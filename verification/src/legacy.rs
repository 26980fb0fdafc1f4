use vstd::prelude::*;

use crate::text::chars_of;

verus! {

/// The formatting that a run of legacy-formatted text is shown with: one of the
/// sixteen named colours (by its hex digit, `0` to `15`) or none, and the five
/// modifiers that the `§k` to `§o` codes switch on.
#[derive(Clone, Copy, Debug, PartialEq, Eq, Structural)]
pub struct TextStyle {
    pub color: Option<u8>,
    pub obfuscated: bool,
    pub bold: bool,
    pub strikethrough: bool,
    pub underlined: bool,
    pub italic: bool,
}

/// A run of text shown with one style.
#[derive(Clone, Debug)]
pub struct TextSegment {
    pub style: TextStyle,
    pub text: String,
}

/// The style that text has before any code: no colour, no modifier.
pub open spec fn plain_style() -> TextStyle {
    TextStyle {
        color: None,
        obfuscated: false,
        bold: false,
        strikethrough: false,
        underlined: false,
        italic: false,
    }
}

/// The value of a hexadecimal digit character of either case, if it is one.
pub open spec fn hex_digit_value(c: char) -> Option<u8> {
    if '0' <= c && c <= '9' {
        Some(((c as int) - 48) as u8)
    } else if 'a' <= c && c <= 'f' {
        Some(((c as int) - 87) as u8)
    } else if 'A' <= c && c <= 'F' {
        Some(((c as int) - 55) as u8)
    } else {
        None
    }
}

/// The style after the format code `code` (the character after a `§`) is applied
/// to `style`. A colour code sets the colour and switches every modifier off;
/// `k`, `l`, `m`, `n` and `o` switch on obfuscated, bold, strikethrough,
/// underlined and italic text; `r` resets to the plain style. Letters count in
/// either case; any other code leaves the style as it is.
pub open spec fn apply_code(style: TextStyle, code: char) -> TextStyle {
    if hex_digit_value(code) is Some {
        TextStyle { color: hex_digit_value(code), ..plain_style() }
    } else if code == 'k' || code == 'K' {
        TextStyle { obfuscated: true, ..style }
    } else if code == 'l' || code == 'L' {
        TextStyle { bold: true, ..style }
    } else if code == 'm' || code == 'M' {
        TextStyle { strikethrough: true, ..style }
    } else if code == 'n' || code == 'N' {
        TextStyle { underlined: true, ..style }
    } else if code == 'o' || code == 'O' {
        TextStyle { italic: true, ..style }
    } else if code == 'r' || code == 'R' {
        plain_style()
    } else {
        style
    }
}

/// Where a left-to-right reading of legacy text stands: the runs finished so far,
/// the style in force, the text read in that style and not yet closed, and
/// whether the last character was a `§` that awaits its code.
pub struct LegacyScan {
    pub done: Seq<(TextStyle, Seq<char>)>,
    pub style: TextStyle,
    pub current: Seq<char>,
    pub pending_code: bool,
}

/// Closes the current run: it joins the finished runs if it holds any text.
pub open spec fn close_run(
    done: Seq<(TextStyle, Seq<char>)>,
    style: TextStyle,
    current: Seq<char>,
) -> Seq<(TextStyle, Seq<char>)> {
    if current.len() == 0 {
        done
    } else {
        done.push((style, current))
    }
}

/// Reads one more character.
pub open spec fn scan_step(st: LegacyScan, c: char) -> LegacyScan {
    if st.pending_code {
        let next = apply_code(st.style, c);
        if next == st.style {
            LegacyScan { pending_code: false, ..st }
        } else {
            LegacyScan {
                done: close_run(st.done, st.style, st.current),
                style: next,
                current: Seq::empty(),
                pending_code: false,
            }
        }
    } else if c == '§' {
        LegacyScan { pending_code: true, ..st }
    } else {
        LegacyScan { current: st.current.push(c), ..st }
    }
}

/// The reading of the whole of `s`, from the plain style.
pub open spec fn scan(s: Seq<char>) -> LegacyScan
    decreases s.len(),
{
    if s.len() == 0 {
        LegacyScan { done: Seq::empty(), style: plain_style(), current: Seq::empty(), pending_code: false }
    } else {
        scan_step(scan(s.drop_last()), s.last())
    }
}

/// The runs of legacy-formatted text `s`: each maximal stretch of characters shown
/// in one style, in order, without the codes and without empty runs. A `§` at the
/// very end is dropped.
pub open spec fn legacy_runs(s: Seq<char>) -> Seq<(TextStyle, Seq<char>)> {
    let st = scan(s);
    close_run(st.done, st.style, st.current)
}

/// The view of a segment as a style and its characters.
pub open spec fn segment_view(seg: TextSegment) -> (TextStyle, Seq<char>) {
    (seg.style, seg.text@)
}

/// The view of a list of segments.
pub open spec fn segments_view(segs: Seq<TextSegment>) -> Seq<(TextStyle, Seq<char>)> {
    segs.map_values(|seg: TextSegment| segment_view(seg))
}

/// The value of `c` as a hexadecimal digit of either case, if it is one.
pub fn hex_digit(c: char) -> (d: Option<u8>)
    ensures
        d == hex_digit_value(c),
{
    if '0' <= c && c <= '9' {
        Some(((c as u32) - 48) as u8)
    } else if 'a' <= c && c <= 'f' {
        Some(((c as u32) - 87) as u8)
    } else if 'A' <= c && c <= 'F' {
        Some(((c as u32) - 55) as u8)
    } else {
        None
    }
}

/// The style after the format code `code` is applied to `style`.
pub fn apply_format_code(style: TextStyle, code: char) -> (next: TextStyle)
    ensures
        next == apply_code(style, code),
{
    match hex_digit(code) {
        Some(d) => TextStyle {
            color: Some(d),
            obfuscated: false,
            bold: false,
            strikethrough: false,
            underlined: false,
            italic: false,
        },
        None => {
            if code == 'k' || code == 'K' {
                TextStyle { obfuscated: true, ..style }
            } else if code == 'l' || code == 'L' {
                TextStyle { bold: true, ..style }
            } else if code == 'm' || code == 'M' {
                TextStyle { strikethrough: true, ..style }
            } else if code == 'n' || code == 'N' {
                TextStyle { underlined: true, ..style }
            } else if code == 'o' || code == 'O' {
                TextStyle { italic: true, ..style }
            } else if code == 'r' || code == 'R' {
                TextStyle {
                    color: None,
                    obfuscated: false,
                    bold: false,
                    strikethrough: false,
                    underlined: false,
                    italic: false,
                }
            } else {
                style
            }
        },
    }
}

/// Splits text in the legacy format (`§` followed by a format code) into runs of
/// one style each.
pub fn from_legacy(legacy: &str) -> (segments: Vec<TextSegment>)
    ensures
        segments_view(segments@) == legacy_runs(legacy@),
{
    let chars = chars_of(legacy);
    let mut done: Vec<TextSegment> = Vec::new();
    let mut style = TextStyle {
        color: None,
        obfuscated: false,
        bold: false,
        strikethrough: false,
        underlined: false,
        italic: false,
    };
    let mut current = String::new();
    let mut has_text = false;
    let mut pending = false;
    let mut i: usize = 0;
    assert(chars@.take(0) =~= Seq::<char>::empty());
    while i < chars.len()
        invariant
            i <= chars@.len(),
            chars@ == legacy@,
            segments_view(done@) == scan(chars@.take(i as int)).done,
            style == scan(chars@.take(i as int)).style,
            current@ == scan(chars@.take(i as int)).current,
            has_text == (current@.len() > 0),
            pending == scan(chars@.take(i as int)).pending_code,
        decreases chars.len() - i,
    {
        let c = chars[i];
        let ghost before = chars@.take(i as int);
        assert(chars@.take(i + 1).drop_last() =~= before);
        assert(chars@.take(i + 1).last() == c);
        if pending {
            let next = apply_format_code(style, c);
            if next != style {
                if has_text {
                    let seg = TextSegment { style, text: current };
                    proof {
                        assert(segments_view(done@.push(seg)) =~= segments_view(done@).push(segment_view(seg)));
                    }
                    done.push(seg);
                    current = String::new();
                    has_text = false;
                }
                style = next;
            }
            pending = false;
        } else if c == '§' {
            pending = true;
        } else {
            current.push(c);
            has_text = true;
        }
        i = i + 1;
    }
    assert(chars@.take(chars@.len() as int) =~= chars@);
    if has_text {
        let seg = TextSegment { style, text: current };
        proof {
            assert(segments_view(done@.push(seg)) =~= segments_view(done@).push(segment_view(seg)));
        }
        done.push(seg);
    }
    done
}

/// The characters of a list of runs, one run after the other.
pub open spec fn runs_text(runs: Seq<(TextStyle, Seq<char>)>) -> Seq<char>
    decreases runs.len(),
{
    if runs.len() == 0 {
        Seq::empty()
    } else {
        runs_text(runs.drop_last()) + runs.last().1
    }
}

/// The characters of `s` that are shown: all but each `§` and the code character
/// that follows it. The flag says whether `s` ends in a `§` that awaits its code.
pub open spec fn shown_chars(s: Seq<char>) -> (Seq<char>, bool)
    decreases s.len(),
{
    if s.len() == 0 {
        (Seq::empty(), false)
    } else {
        let (kept, pending) = shown_chars(s.drop_last());
        if pending {
            (kept, false)
        } else if s.last() == '§' {
            (kept, true)
        } else {
            (kept.push(s.last()), false)
        }
    }
}

proof fn lemma_scan_shows(s: Seq<char>)
    ensures
        runs_text(scan(s).done) + scan(s).current == shown_chars(s).0,
        scan(s).pending_code == shown_chars(s).1,
        forall|k: int| 0 <= k < scan(s).done.len() ==> (#[trigger] scan(s).done[k]).1.len() > 0,
    decreases s.len(),
{
    if s.len() > 0 {
        let prev = scan(s.drop_last());
        lemma_scan_shows(s.drop_last());
        let c = s.last();
        if prev.pending_code {
            let next = apply_code(prev.style, c);
            if next != prev.style && prev.current.len() > 0 {
                let d = prev.done.push((prev.style, prev.current));
                assert(d.drop_last() =~= prev.done);
                assert(runs_text(d) == runs_text(prev.done) + prev.current);
                assert(runs_text(d) + Seq::<char>::empty() =~= runs_text(d));
            } else if next != prev.style {
                assert(prev.current =~= Seq::<char>::empty());
                assert(runs_text(prev.done) + Seq::<char>::empty() =~= runs_text(prev.done) + prev.current);
            }
        } else if c != '§' {
            assert(runs_text(prev.done) + prev.current.push(c)
                =~= (runs_text(prev.done) + prev.current).push(c));
        }
    }
}

/// Reading legacy text keeps every shown character, in order: the runs, one
/// after the other, spell the text without its format codes; and no run is empty.
pub proof fn lemma_legacy_runs_spell_text(s: Seq<char>)
    ensures
        runs_text(legacy_runs(s)) == shown_chars(s).0,
        forall|k: int| 0 <= k < legacy_runs(s).len() ==> (#[trigger] legacy_runs(s)[k]).1.len() > 0,
{
    lemma_scan_shows(s);
    let st = scan(s);
    if st.current.len() > 0 {
        let d = st.done.push((st.style, st.current));
        assert(d.drop_last() =~= st.done);
    } else {
        assert(st.current =~= Seq::<char>::empty());
        assert(runs_text(st.done) + st.current =~= runs_text(st.done));
    }
}

proof fn lemma_scan_without_codes(s: Seq<char>)
    requires
        !s.contains('§'),
    ensures
        scan(s).done == Seq::<(TextStyle, Seq<char>)>::empty(),
        scan(s).style == plain_style(),
        scan(s).current == s,
        !scan(s).pending_code,
    decreases s.len(),
{
    if s.len() > 0 {
        let t = s.drop_last();
        assert forall|c: char| t.contains(c) implies s.contains(c) by {
            let k = choose|k: int| 0 <= k < t.len() && t[k] == c;
            assert(s[k] == c);
        }
        lemma_scan_without_codes(t);
        assert(s[s.len() - 1] == s.last());
        assert(t.push(s.last()) =~= s);
    }
}

/// Text without any `§` is a single run in the plain style (none at all when it
/// is empty).
pub proof fn lemma_legacy_plain_text(s: Seq<char>)
    requires
        !s.contains('§'),
    ensures
        legacy_runs(s) == (if s.len() == 0 {
            Seq::<(TextStyle, Seq<char>)>::empty()
        } else {
            seq![(plain_style(), s)]
        }),
{
    lemma_scan_without_codes(s);
    if s.len() > 0 {
        assert(Seq::<(TextStyle, Seq<char>)>::empty().push((plain_style(), s)) =~= seq![(plain_style(), s)]);
    }
}

/// The format codes, field by field: `k`, `l`, `m`, `n` and `o` (either case)
/// switch on obfuscated, bold, strikethrough, underlined and italic text and leave
/// every other part of the style as it was; a hexadecimal digit sets that colour
/// (`0`-`9` are 0 to 9, `a`-`f` and `A`-`F` are 10 to 15) and switches every
/// modifier off; `r` (either case) resets to no colour and no modifier; any other
/// code changes nothing.
pub proof fn lemma_format_codes(style: TextStyle, code: char)
    ensures
        code == 'k' || code == 'K' ==> apply_code(style, code) == (TextStyle {
            color: style.color,
            obfuscated: true,
            bold: style.bold,
            strikethrough: style.strikethrough,
            underlined: style.underlined,
            italic: style.italic,
        }),
        code == 'l' || code == 'L' ==> apply_code(style, code) == (TextStyle {
            color: style.color,
            obfuscated: style.obfuscated,
            bold: true,
            strikethrough: style.strikethrough,
            underlined: style.underlined,
            italic: style.italic,
        }),
        code == 'm' || code == 'M' ==> apply_code(style, code) == (TextStyle {
            color: style.color,
            obfuscated: style.obfuscated,
            bold: style.bold,
            strikethrough: true,
            underlined: style.underlined,
            italic: style.italic,
        }),
        code == 'n' || code == 'N' ==> apply_code(style, code) == (TextStyle {
            color: style.color,
            obfuscated: style.obfuscated,
            bold: style.bold,
            strikethrough: style.strikethrough,
            underlined: true,
            italic: style.italic,
        }),
        code == 'o' || code == 'O' ==> apply_code(style, code) == (TextStyle {
            color: style.color,
            obfuscated: style.obfuscated,
            bold: style.bold,
            strikethrough: style.strikethrough,
            underlined: style.underlined,
            italic: true,
        }),
        code == 'r' || code == 'R' ==> apply_code(style, code) == (TextStyle {
            color: None,
            obfuscated: false,
            bold: false,
            strikethrough: false,
            underlined: false,
            italic: false,
        }),
        ('0' <= code <= '9' || 'a' <= code <= 'f' || 'A' <= code <= 'F') ==> apply_code(style, code) == (TextStyle {
            color: Some(
                (if code <= '9' {
                    code as int - '0' as int
                } else if code <= 'F' {
                    code as int - 'A' as int + 10
                } else {
                    code as int - 'a' as int + 10
                }) as u8,
            ),
            obfuscated: false,
            bold: false,
            strikethrough: false,
            underlined: false,
            italic: false,
        }),
        !('0' <= code <= '9' || 'a' <= code <= 'f' || 'A' <= code <= 'F' || code == 'k' || code == 'K' || code == 'l'
            || code == 'L' || code == 'm' || code == 'M' || code == 'n' || code == 'N' || code == 'o' || code == 'O'
            || code == 'r' || code == 'R') ==> apply_code(style, code) == style,
{
}

/// Reading on after a prefix that leaves no code pending, through text without
/// any `§`, only adds that text to the current run.
proof fn lemma_scan_extend(p: Seq<char>, s: Seq<char>)
    requires
        !scan(p).pending_code,
        !s.contains('§'),
    ensures
        scan(p + s).done == scan(p).done,
        scan(p + s).style == scan(p).style,
        scan(p + s).current == scan(p).current + s,
        !scan(p + s).pending_code,
    decreases s.len(),
{
    if s.len() == 0 {
        assert(p + s =~= p);
        assert(scan(p).current + s =~= scan(p).current);
    } else {
        let t = s.drop_last();
        assert forall|c: char| t.contains(c) implies s.contains(c) by {
            let k = choose|k: int| 0 <= k < t.len() && t[k] == c;
            assert(s[k] == c);
        }
        lemma_scan_extend(p, t);
        assert((p + s).drop_last() =~= p + t);
        assert((p + s).last() == s.last());
        assert(s[s.len() - 1] == s.last());
        assert(s.last() != '§');
        assert(scan(p).current + t.push(s.last()) =~= (scan(p).current + t).push(s.last()));
        assert(t.push(s.last()) =~= s);
    }
}

/// Text that starts with `§n` and has no other `§` is one run: all of the text
/// after the code, underlined and otherwise plain (not struck through).
pub proof fn lemma_underlined_text(s: Seq<char>)
    requires
        s.len() > 0,
        !s.contains('§'),
    ensures
        legacy_runs(seq!['§', 'n'] + s) == seq![
            (
                (TextStyle {
                    color: None,
                    obfuscated: false,
                    bold: false,
                    strikethrough: false,
                    underlined: true,
                    italic: false,
                }),
                s,
            ),
        ],
{
    let p = seq!['§', 'n'];
    assert(p.drop_last() =~= seq!['§']);
    let q = seq!['§'];
    assert(q.drop_last() =~= Seq::<char>::empty());
    assert(q.last() == '§');
    assert(scan(q) == scan_step(scan(Seq::<char>::empty()), '§'));
    assert(scan(q).pending_code);
    assert(p.last() == 'n');
    assert(scan(p) == scan_step(scan(q), 'n'));
    assert(apply_code(plain_style(), 'n') != plain_style());
    assert(scan(p).done =~= Seq::<(TextStyle, Seq<char>)>::empty());
    assert(scan(p).current =~= Seq::<char>::empty());
    lemma_scan_extend(p, s);
    assert(scan(p + s).current =~= s);
    assert(Seq::<(TextStyle, Seq<char>)>::empty().push((scan(p).style, s)) =~= seq![(scan(p).style, s)]);
}

/// Text that starts with one format code and has no other `§` is a single run
/// of all the text after the code, in the style that the code gives to plain text
/// (when the code changes it; otherwise the text is plain).
pub proof fn lemma_one_code_text(code: char, s: Seq<char>)
    requires
        s.len() > 0,
        !s.contains('§'),
    ensures
        legacy_runs(seq!['§', code] + s) == seq![(apply_code(plain_style(), code), s)],
{
    let p = seq!['§', code];
    let q = seq!['§'];
    assert(p.drop_last() =~= q);
    assert(q.drop_last() =~= Seq::<char>::empty());
    assert(q.last() == '§');
    assert(scan(q) == scan_step(scan(Seq::<char>::empty()), '§'));
    assert(p.last() == code);
    assert(scan(p) == scan_step(scan(q), code));
    assert(scan(p).done =~= Seq::<(TextStyle, Seq<char>)>::empty());
    assert(scan(p).current =~= Seq::<char>::empty());
    lemma_scan_extend(p, s);
    assert(scan(p + s).current =~= s);
    assert(Seq::<(TextStyle, Seq<char>)>::empty().push((scan(p).style, s)) =~= seq![(scan(p).style, s)]);
}

} // verus!
