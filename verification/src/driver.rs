//! The run's decisions and fixed messages: assembling the pattern list from
//! the command line's pieces, classifying the target, and the exact text of
//! the failure messages.

use vstd::prelude::*;

use crate::colorize::{has_reset, paint_red_bold, painted, red_bold_style};
use crate::pattern::views_of;

verus! {

/// The given strings with the empty ones dropped, order kept.
pub open spec fn keep_nonempty(ss: Seq<Seq<char>>) -> Seq<Seq<char>>
    decreases ss.len(),
{
    if ss.len() == 0 {
        Seq::empty()
    } else if ss.last().len() > 0 {
        keep_nonempty(ss.drop_last()).push(ss.last())
    } else {
        keep_nonempty(ss.drop_last())
    }
}

/// The view of an optional string, as a list of zero or one elements.
pub open spec fn opt_view(o: Option<String>) -> Seq<Seq<char>> {
    match o {
        Option::None => Seq::empty(),
        Option::Some(s) => seq![s@],
    }
}

proof fn lemma_keep_nonempty_single(x: Seq<char>)
    ensures
        keep_nonempty(seq![x]) == if x.len() > 0 {
            seq![x]
        } else {
            Seq::<Seq<char>>::empty()
        },
{
    let e = Seq::<Seq<char>>::empty();
    assert(seq![x].drop_last() =~= e);
    assert(keep_nonempty(e) == e);
    assert(seq![x].last() == x);
    if x.len() > 0 {
        assert(keep_nonempty(seq![x]) == keep_nonempty(e).push(x));
        assert(keep_nonempty(e).push(x) =~= seq![x]);
    }
}

proof fn lemma_keep_nonempty_push(ss: Seq<Seq<char>>, x: Seq<char>)
    ensures
        keep_nonempty(ss.push(x)) == if x.len() > 0 {
            keep_nonempty(ss).push(x)
        } else {
            keep_nonempty(ss)
        },
{
    assert(ss.push(x).drop_last() =~= ss);
    assert(ss.push(x).last() == x);
}

/// The pattern texts of a run: the positional pattern, if present, followed
/// by the repeated-flag patterns, with empty strings dropped.
pub fn collect_patterns(positional: &Option<String>, flags: &Vec<String>) -> (r: Vec<String>)
    ensures
        views_of(r@) == keep_nonempty(opt_view(*positional) + views_of(flags@)),
{
    let ghost all = opt_view(*positional) + views_of(flags@);
    let mut out: Vec<String> = Vec::new();
    match positional {
        Option::Some(p) => {
            if !p.as_str().is_empty() {
                out.push(p.clone());
            }
        },
        Option::None => {},
    }
    proof {
        match *positional {
            Option::Some(ref p) => {
                lemma_keep_nonempty_single(p@);
                assert(opt_view(*positional) =~= seq![p@]);
                if p@.len() > 0 {
                    assert(views_of(out@) =~= seq![p@]);
                } else {
                    assert(views_of(out@) =~= Seq::<Seq<char>>::empty());
                }
            },
            Option::None => {
                assert(views_of(out@) =~= Seq::<Seq<char>>::empty());
                assert(keep_nonempty(opt_view(*positional)) =~= Seq::<Seq<char>>::empty());
            },
        }
        assert(views_of(out@) =~= keep_nonempty(opt_view(*positional)));
    }
    let n: usize = flags.len();
    let mut i: usize = 0;
    while i < n
        invariant
            0 <= i <= n,
            n == flags@.len(),
            views_of(out@) == keep_nonempty(opt_view(*positional) + views_of(flags@.take(i as int))),
        decreases n - i,
    {
        let ghost prefix = opt_view(*positional) + views_of(flags@.take(i as int));
        if !flags[i].as_str().is_empty() {
            out.push(flags[i].clone());
        }
        proof {
            lemma_keep_nonempty_push(prefix, flags@[i as int]@);
            assert(opt_view(*positional) + views_of(flags@.take(i + 1)) =~= prefix.push(
                flags@[i as int]@,
            ));
            if flags@[i as int]@.len() > 0 {
                assert(views_of(out@) =~= keep_nonempty(prefix).push(flags@[i as int]@));
            }
        }
        i += 1;
    }
    proof {
        assert(flags@.take(n as int) =~= flags@);
    }
    out
}

/// What a run scans: the standard-input stream, one file, a directory tree,
/// or nothing because the target path could not be resolved.
#[derive(PartialEq, Eq, Structural, Clone, Copy, Debug)]
pub enum TargetKind {
    Stream,
    File,
    Directory,
    NotFound,
}

/// The target a run scans. When standard input is not an interactive
/// terminal it is the stream, and the target path is ignored; otherwise the
/// path's metadata decides between a file, a directory, and a missing path.
pub open spec fn spec_classify(stdin_is_terminal: bool, metadata_is_file: Option<bool>) -> TargetKind {
    if !stdin_is_terminal {
        TargetKind::Stream
    } else {
        match metadata_is_file {
            Option::None => TargetKind::NotFound,
            Option::Some(true) => TargetKind::File,
            Option::Some(false) => TargetKind::Directory,
        }
    }
}

/// Classifies the target of a run; `metadata_is_file` is whether the target
/// path's metadata could be read and calls it a regular file.
pub fn classify_target(stdin_is_terminal: bool, metadata_is_file: Option<bool>) -> (t: TargetKind)
    ensures
        t == spec_classify(stdin_is_terminal, metadata_is_file),
{
    if !stdin_is_terminal {
        TargetKind::Stream
    } else {
        match metadata_is_file {
            Option::None => TargetKind::NotFound,
            Option::Some(true) => TargetKind::File,
            Option::Some(false) => TargetKind::Directory,
        }
    }
}

/// The label that file lines are reported under: the path and one space.
pub fn file_label(path: &str) -> (r: String)
    ensures
        r@ == path@ + seq![' '],
{
    proof {
        reveal_strlit(" ");
    }
    let mut r = String::from_str(path);
    r.append(" ");
    proof {
        assert(r@ =~= path@ + seq![' ']);
    }
    r
}

/// The fatal message for a pattern the engine refused.
pub fn invalid_pattern_message(text: &str) -> (r: String)
    ensures
        r@ == "Regex \""@ + text@ + "\" invalid."@,
{
    let mut r = String::from_str("Regex \"");
    r.append(text);
    r.append("\" invalid.");
    r
}

/// The fatal message for a pattern list whose patterns are each valid but
/// which the engine refused to compile as one set.
pub fn set_refused_message() -> (r: String)
    ensures
        r@ == "Pattern set rejected by the regex engine."@,
{
    String::from_str("Pattern set rejected by the regex engine.")
}

/// The lenient message for a target path that could not be resolved.
pub fn not_found_message(path: &str) -> (r: String)
    ensures
        r@ == "Path \""@ + path@ + "\" not found."@,
{
    let mut r = String::from_str("Path \"");
    r.append(path);
    r.append("\" not found.");
    r
}

/// The per-file warning for a file that could not be opened.
pub open spec fn skip_warning_text(path: Seq<char>) -> Seq<char> {
    "[WARN] Skipping "@ + path + ", Permission Denied"@
}

/// The warning line for a file that could not be opened: the plain warning
/// text, painted when colorized output is on.
pub fn skip_warning(path: &str, use_color: bool) -> (r: String)
    ensures
        !use_color ==> r@ == skip_warning_text(path@),
        use_color && !has_reset(skip_warning_text(path@)) ==> painted(
            r@,
            skip_warning_text(path@),
            red_bold_style(),
        ),
{
    let mut msg = String::from_str("[WARN] Skipping ");
    msg.append(path);
    msg.append(", Permission Denied");
    if use_color {
        paint_red_bold(msg.as_str())
    } else {
        msg
    }
}

/// The process's exit code: failure only when a supplied pattern did not
/// compile; every other outcome, a missing target path included, is normal
/// completion.
pub fn exit_code(pattern_compile_failed: bool) -> (r: i32)
    ensures
        pattern_compile_failed ==> r == 1,
        !pattern_compile_failed ==> r == 0,
{
    if pattern_compile_failed {
        1
    } else {
        0
    }
}

} // verus!
