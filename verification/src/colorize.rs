//! Accent colors for output pieces. The terminal library decides on its own
//! whether escape codes are emitted at all (it looks at the environment), so
//! a painted string has one of two exact forms: the input unchanged, or the
//! accent's escape prefix, the input, and the reset sequence.

use colored::Colorize;
use vstd::prelude::*;

use crate::text::occurs_at;

verus! {

/// The ANSI reset sequence.
pub open spec fn reset_seq() -> Seq<char> {
    seq!['\u{1b}', '[', '0', 'm']
}

/// The escape prefix that starts green text.
pub open spec fn green_style() -> Seq<char> {
    seq!['\u{1b}', '[', '3', '2', 'm']
}

/// The escape prefix that starts yellow text.
pub open spec fn yellow_style() -> Seq<char> {
    seq!['\u{1b}', '[', '3', '3', 'm']
}

/// The escape prefix that starts bold red text.
pub open spec fn red_bold_style() -> Seq<char> {
    seq!['\u{1b}', '[', '1', ';', '3', '1', 'm']
}

/// The reset sequence stands somewhere in `s`.
pub open spec fn has_reset(s: Seq<char>) -> bool {
    exists|i: int| occurs_at(s, reset_seq(), i)
}

/// `out` renders `s` under the given accent: either `s` unchanged (colors
/// off), or `s` between the accent's escape prefix and the reset sequence.
pub open spec fn painted(out: Seq<char>, s: Seq<char>, style: Seq<char>) -> bool {
    out == s || out == style + s + reset_seq()
}

/// A string without the escape character cannot hold the reset sequence.
pub proof fn lemma_no_esc_no_reset(s: Seq<char>)
    requires
        forall|k: int| 0 <= k < s.len() ==> s[k] != '\u{1b}',
    ensures
        !has_reset(s),
{
    if has_reset(s) {
        let i = choose|i: int| occurs_at(s, reset_seq(), i);
        assert(s.subrange(i, i + reset_seq().len() as int)[0] == s[i]);
        assert(s[i] == '\u{1b}');
    }
}

/// Relies on `colored::Colorize::green` and `ColoredString`'s `Display`
/// rendering: the output is either the input unchanged (when the library
/// leaves colors off) or the green escape prefix, the input, and the reset
/// suffix. An input that holds the reset sequence would be rewritten
/// inside, so nothing is claimed of one.
#[verifier::external_body]
pub(crate) fn paint_green(s: &str) -> (r: String)
    ensures
        !has_reset(s@) ==> painted(r@, s@, green_style()),
{
    s.green().to_string()
}

/// Relies on `colored::Colorize::yellow`; see `paint_green`.
#[verifier::external_body]
pub(crate) fn paint_yellow(s: &str) -> (r: String)
    ensures
        !has_reset(s@) ==> painted(r@, s@, yellow_style()),
{
    s.yellow().to_string()
}

/// Relies on `colored::Colorize::red` and `ColoredString::bold`; see
/// `paint_green`. The two accents render as the one prefix `ESC[1;31m`.
#[verifier::external_body]
pub(crate) fn paint_red_bold(s: &str) -> (r: String)
    ensures
        !has_reset(s@) ==> painted(r@, s@, red_bold_style()),
{
    s.red().bold().to_string()
}

} // verus!
