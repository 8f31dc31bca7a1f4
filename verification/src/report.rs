//! Rendering match events: one formatted output line per firing pattern, in
//! plain or colorized form. Both forms select the same lines and carry the
//! same matched substrings; the colorized form only adds accent markers
//! around the source label, the line-number token, and the first occurrence
//! of the matched substring.

use vstd::prelude::*;

use crate::colorize::{
    green_style, has_reset, lemma_no_esc_no_reset, paint_green, paint_red_bold, paint_yellow,
    painted, red_bold_style, yellow_style,
};
use crate::pattern::{find_str, fired, PatternSet};
use crate::text::{
    dec_str, first_occ_from, lemma_dec_str_digits, lemma_first_occ_props, usize_to_string,
};

verus! {

/// The one plain output line for a line that fired a pattern: the source
/// label, the line-number token, a separator, and the line unchanged.
pub open spec fn plain_render(label: Seq<char>, n: int, line: Seq<char>) -> Seq<char> {
    label + seq!['L'] + dec_str(n) + seq![':', ' '] + line
}

/// The substring found by the pattern that fired `k`-th on `line`.
pub open spec fn event_text(pats: Seq<Seq<char>>, line: Seq<char>, k: int) -> Seq<char> {
    find_str(pats[fired(pats, line)[k]], line).unwrap()
}

/// The position of the first occurrence in `line` of the substring of the
/// `k`-th firing pattern.
pub open spec fn event_start(pats: Seq<Seq<char>>, line: Seq<char>, k: int) -> int {
    first_occ_from(line, event_text(pats, line, k), 0).unwrap()
}

/// A colorized output line, taken apart: the label under the green accent,
/// the line-number token under the yellow accent, the separator, and the
/// line with its first occurrence of `text` (standing at `s`) under the
/// bold-red accent. Each painted piece is its text unchanged or its text
/// between that accent's escape prefix and the reset sequence, so the
/// colorized line differs from the plain one only by those markers.
pub open spec fn colored_parts(
    out: Seq<char>,
    g: Seq<char>,
    y: Seq<char>,
    m: Seq<char>,
    label: Seq<char>,
    n: int,
    line: Seq<char>,
    text: Seq<char>,
    s: int,
) -> bool {
    &&& out == g + y + seq![':', ' '] + line.subrange(0, s) + m + line.subrange(
        s + text.len() as int,
        line.len() as int,
    )
    &&& painted(g, label, green_style())
    &&& painted(y, seq!['L'] + dec_str(n), yellow_style())
    &&& painted(m, text, red_bold_style())
}

/// What the colorized form promises of the `k`-th output line: unless the
/// label or the matched substring holds the reset sequence (which the
/// terminal library rewrites), the line is the plain structure with the
/// label, the number token and the substring's first occurrence wrapped in
/// markers.
pub open spec fn colored_render_ok(
    out: Seq<char>,
    label: Seq<char>,
    n: int,
    line: Seq<char>,
    pats: Seq<Seq<char>>,
    k: int,
) -> bool {
    (!has_reset(label) && !has_reset(event_text(pats, line, k))) ==> exists|
        g: Seq<char>,
        y: Seq<char>,
        m: Seq<char>,
    |
        #[trigger] colored_parts(
            out,
            g,
            y,
            m,
            label,
            n,
            line,
            event_text(pats, line, k),
            event_start(pats, line, k),
        )
}

/// A colorized line and a plain line differ only in the added markers:
/// when all three painted pieces come out unmarked, the colorized line is
/// the plain line itself.
pub proof fn lemma_unmarked_colored_is_plain(
    out: Seq<char>,
    label: Seq<char>,
    n: int,
    line: Seq<char>,
    text: Seq<char>,
    s: int,
)
    requires
        colored_parts(out, label, seq!['L'] + dec_str(n), text, label, n, line, text, s),
        crate::text::occurs_at(line, text, s),
    ensures
        out == plain_render(label, n, line),
{
    assert(line.subrange(0, s) + text + line.subrange(s + text.len() as int, line.len() as int)
        =~= line);
    assert(out =~= plain_render(label, n, line));
}

/// Renders one line of input against the pattern set: one output line per
/// firing pattern, in pattern-declaration order. The number of output lines
/// does not depend on the mode; the plain mode repeats the line unchanged,
/// the colorized mode only adds markers.
#[verifier::loop_isolation(false)]
pub fn report_line(
    ps: &PatternSet,
    label: &str,
    lineno: usize,
    line: &str,
    use_color: bool,
) -> (r: Vec<String>)
    ensures
        r@.len() == fired(ps@, line@).len(),
        !use_color ==> forall|k: int|
            0 <= k < r@.len() ==> (#[trigger] r@[k])@ == plain_render(
                label@,
                lineno as int,
                line@,
            ),
        use_color ==> forall|k: int|
            0 <= k < r@.len() ==> colored_render_ok(
                (#[trigger] r@[k])@,
                label@,
                lineno as int,
                line@,
                ps@,
                k,
            ),
{
    proof {
        reveal_strlit("L");
        reveal_strlit(": ");
    }
    let events = ps.match_line(line);
    let num = usize_to_string(lineno);
    let n: usize = events.len();
    let mut out: Vec<String> = Vec::new();
    if !use_color {
        let mut base = String::from_str(label);
        base.append("L");
        base.append(num.as_str());
        base.append(": ");
        base.append(line);
        proof {
            assert(base@ =~= plain_render(label@, lineno as int, line@));
        }
        let mut k: usize = 0;
        while k < n
            invariant
                0 <= k <= n,
                out@.len() == k,
                forall|j: int|
                    0 <= j < k ==> (#[trigger] out@[j])@ == plain_render(
                        label@,
                        lineno as int,
                        line@,
                    ),
            decreases n - k,
        {
            out.push(base.clone());
            k += 1;
        }
        out
    } else {
        let line_len: usize = line.unicode_len();
        let mut ln = String::from_str("L");
        ln.append(num.as_str());
        proof {
            assert(ln@ =~= seq!['L'] + dec_str(lineno as int));
            lemma_dec_str_digits(lineno as int);
            assert forall|t: int| 0 <= t < ln@.len() implies ln@[t] != '\u{1b}' by {
                if t > 0 {
                    assert(ln@[t] == dec_str(lineno as int)[t - 1]);
                }
            }
            lemma_no_esc_no_reset(ln@);
        }
        let mut k: usize = 0;
        while k < n
            invariant
                0 <= k <= n,
                out@.len() == k,
                forall|j: int|
                    0 <= j < k ==> colored_render_ok(
                        (#[trigger] out@[j])@,
                        label@,
                        lineno as int,
                        line@,
                        ps@,
                        j,
                    ),
            decreases n - k,
        {
            let text = events[k].text.clone();
            let start: usize = events[k].start;
            proof {
                lemma_first_occ_props(line@, text@, 0);
            }
            let text_len: usize = text.as_str().unicode_len();
            let pre = line.substring_char(0, start);
            let post = line.substring_char(start + text_len, line_len);
            let mut o = paint_green(label);
            let y = paint_yellow(ln.as_str());
            let m = paint_red_bold(text.as_str());
            let ghost g_view = o@;
            o.append(y.as_str());
            o.append(": ");
            o.append(pre);
            o.append(m.as_str());
            o.append(post);
            proof {
                if !has_reset(label@) && !has_reset(text@) {
                    assert(colored_parts(
                        o@,
                        g_view,
                        y@,
                        m@,
                        label@,
                        lineno as int,
                        line@,
                        event_text(ps@, line@, k as int),
                        event_start(ps@, line@, k as int),
                    )) by {
                        assert(o@ =~= g_view + y@ + seq![':', ' '] + line@.subrange(
                            0,
                            start as int,
                        ) + m@ + line@.subrange(
                            start + text@.len() as int,
                            line@.len() as int,
                        ));
                    }
                }
            }
            out.push(o);
            k += 1;
        }
        out
    }
}

} // verus!
