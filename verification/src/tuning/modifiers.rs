//! TuneD's value modifiers: relative assignments (`>`, `>=`, `=>`, `<`, `<=`, `=<`) and
//! `|`-separated fallback choices.
use vstd::prelude::*;

use crate::number::{parse_i64, parse_i64_spec};
use crate::text::{chars_of, split_fields, split_fields_str, trim, trim_str};
use crate::tuning::TuningError;

verus! {

/// How a tunable's new value relates to its current one.
#[derive(Debug, Clone, Copy, PartialEq, Eq, Structural)]
pub enum AssignmentOp {
    /// Write the value as it stands.
    Assign,
    /// Write only if the value is greater than the current one.
    Greater,
    /// Written `>=` or `=>`: TuneD writes only a strictly greater value.
    GreaterEqual,
    /// Write only if the value is less than the current one.
    Less,
    /// Written `<=` or `=<`: TuneD writes only a strictly smaller value.
    LessEqual,
}

/// A profile value with its operator split off.
#[derive(Debug, Clone, PartialEq, Eq)]
pub struct Assignment {
    pub op: AssignmentOp,
    /// The whole value, trimmed.
    pub raw: String,
    /// The value without the operator, trimmed.
    pub target: String,
}

/// The meaning of a parsed assignment.
pub struct AssignmentSpec {
    pub op: AssignmentOp,
    pub raw: Seq<char>,
    pub target: Seq<char>,
}

/// Whether `r` begins with the two characters `a`, `b`.
pub open spec fn has_two(r: Seq<char>, a: char, b: char) -> bool {
    r.len() >= 2 && r[0] == a && r[1] == b
}

/// What `parse_assignment` makes of `raw`: the operators are tried in the order
/// `>=`, `=>`, `<=`, `=<`, `>`, `<` on the trimmed value.
pub open spec fn parse_assignment_spec(raw: Seq<char>) -> AssignmentSpec {
    let r = trim(raw);
    if has_two(r, '>', '=') || has_two(r, '=', '>') {
        AssignmentSpec { op: AssignmentOp::GreaterEqual, raw: r, target: trim(r.skip(2)) }
    } else if has_two(r, '<', '=') || has_two(r, '=', '<') {
        AssignmentSpec { op: AssignmentOp::LessEqual, raw: r, target: trim(r.skip(2)) }
    } else if r.len() >= 1 && r[0] == '>' {
        AssignmentSpec { op: AssignmentOp::Greater, raw: r, target: trim(r.skip(1)) }
    } else if r.len() >= 1 && r[0] == '<' {
        AssignmentSpec { op: AssignmentOp::Less, raw: r, target: trim(r.skip(1)) }
    } else {
        AssignmentSpec { op: AssignmentOp::Assign, raw: r, target: r }
    }
}

/// Whether `a` holds what `parse_assignment_spec(raw)` describes.
pub open spec fn assignment_matches(a: Assignment, s: AssignmentSpec) -> bool {
    a.op == s.op && a.raw@ == s.raw && a.target@ == s.target
}

/// Splits a profile value such as `=>4096` into its operator and target.
pub fn parse_assignment(raw: &str) -> (a: Assignment)
    ensures
        assignment_matches(a, parse_assignment_spec(raw@)),
{
    let r = trim_str(raw);
    let cs = chars_of(r.as_str());
    let n = cs.len();
    let (op, skip) = if n >= 2 && ((cs[0] == '>' && cs[1] == '=') || (cs[0] == '=' && cs[1]
        == '>')) {
        (AssignmentOp::GreaterEqual, 2usize)
    } else if n >= 2 && ((cs[0] == '<' && cs[1] == '=') || (cs[0] == '=' && cs[1] == '<')) {
        (AssignmentOp::LessEqual, 2usize)
    } else if n >= 1 && cs[0] == '>' {
        (AssignmentOp::Greater, 1usize)
    } else if n >= 1 && cs[0] == '<' {
        (AssignmentOp::Less, 1usize)
    } else {
        (AssignmentOp::Assign, 0usize)
    };
    if skip == 0 {
        let target = r.clone();
        Assignment { op, raw: r, target }
    } else {
        let target = trim_str(r.as_str().substring_char(skip, n));
        Assignment { op, raw: r, target }
    }
}

/// Whether a relative assignment of `target` over `current` calls for a write.
pub open spec fn relation_holds(op: AssignmentOp, target: int, current: int) -> bool {
    match op {
        AssignmentOp::Greater | AssignmentOp::GreaterEqual => target > current,
        AssignmentOp::Less | AssignmentOp::LessEqual => target < current,
        AssignmentOp::Assign => true,
    }
}

/// The value to write for `target` under `op` over the `current` value, or `None` to keep
/// the current one. Where either side is not a decimal `i64`, the target is written as is.
pub open spec fn resolve_spec(op: AssignmentOp, target: Seq<char>, current: Seq<char>) -> Option<
    Seq<char>,
> {
    if op == AssignmentOp::Assign {
        Some(target)
    } else {
        match (parse_i64_spec(target), parse_i64_spec(trim(current))) {
            (Some(t), Some(c)) => if relation_holds(op, t, c) {
                Some(target)
            } else {
                None
            },
            _ => Some(target),
        }
    }
}

/// Decides whether `assignment` is to be written over the `current` value; it never fails.
pub fn resolve_numeric_assignment(assignment: &Assignment, current: &str) -> (r: Result<
    Option<String>,
    TuningError,
>)
    ensures
        match r {
            Ok(Some(v)) => resolve_spec(assignment.op, assignment.target@, current@) == Some(v@),
            Ok(None) => resolve_spec(assignment.op, assignment.target@, current@) is None,
            Err(_) => false,
        },
{
    let current = trim_str(current);
    if assignment.op == AssignmentOp::Assign {
        return Ok(Some(assignment.target.clone()));
    }
    let target = parse_i64(assignment.target.as_str());
    let current_value = parse_i64(current.as_str());
    match (target, current_value) {
        (Some(t), Some(c)) => {
            let apply = match assignment.op {
                AssignmentOp::Greater | AssignmentOp::GreaterEqual => t > c,
                AssignmentOp::Less | AssignmentOp::LessEqual => t < c,
                AssignmentOp::Assign => true,
            };
            if apply {
                Ok(Some(assignment.target.clone()))
            } else {
                Ok(None)
            }
        },
        _ => Ok(Some(assignment.target.clone())),
    }
}

/// Applying a profile value twice writes at most once: where a relative assignment with a
/// numeric target calls for a write over `current`, the value it writes already satisfies
/// it, so applying the same value again keeps it.
pub proof fn lemma_reapply_keeps_value(raw: Seq<char>, current: Seq<char>)
    requires
        parse_assignment_spec(raw).op != AssignmentOp::Assign,
        parse_i64_spec(parse_assignment_spec(raw).target) is Some,
    ensures
        ({
            let a = parse_assignment_spec(raw);
            match resolve_spec(a.op, a.target, current) {
                Some(v) => resolve_spec(a.op, a.target, v) is None,
                None => true,
            }
        }),
{
    let a = parse_assignment_spec(raw);
    let r = trim(raw);
    let k: int = if has_two(r, '>', '=') || has_two(r, '=', '>') || has_two(r, '<', '=') || has_two(
        r,
        '=',
        '<',
    ) {
        2
    } else {
        1
    };
    crate::text::lemma_trim_idempotent(r.skip(k));
    assert(trim(a.target) == a.target);
}

/// The value of a tunable file whose content is `content`: the content trimmed, refused
/// where it still spans several lines.
pub fn read_trimmed(content: &str) -> (r: Result<String, TuningError>)
    ensures
        match r {
            Ok(v) => v@ == trim(content@) && !trim(content@).contains('\n'),
            Err(e) => trim(content@).contains('\n') && e == TuningError::MultiLineValue,
        },
{
    let t = trim_str(content);
    if crate::text::str_has_char(t.as_str(), '\n') {
        return Err(TuningError::MultiLineValue);
    }
    Ok(t)
}

/// The `|`-separated alternatives of a choice value, trimmed, empty ones dropped.
pub open spec fn choice_candidates(raw: Seq<char>) -> Seq<Seq<char>> {
    split_fields(raw, seq!['|'])
}

/// Some call of `f` on a string holding `s` answered `answer`.
pub open spec fn answered<F: Fn(&str) -> bool>(f: F, s: Seq<char>, answer: bool) -> bool {
    exists|x: &str| x@ == s && #[trigger] f.ensures((x,), answer)
}

/// The first of `cands` that `p` accepts.
pub open spec fn first_accepted(cands: Seq<Seq<char>>, p: spec_fn(Seq<char>) -> bool) -> Option<
    Seq<char>,
>
    decreases cands.len(),
{
    if cands.len() == 0 {
        None
    } else if p(cands[0]) {
        Some(cands[0])
    } else {
        first_accepted(cands.drop_first(), p)
    }
}

/// Picks the first alternative of `raw` (split on `|`) that `is_valid` accepts.
pub fn resolve_choice<F: Fn(&str) -> bool>(raw: &str, is_valid: F) -> (r: Option<String>)
    requires
        forall|x: &str| #[trigger] is_valid.requires((x,)),
    ensures
        ({
            let cands = choice_candidates(raw@);
            match r {
                Some(c) => exists|i: int|
                    0 <= i < cands.len() && cands[i] == c@ && answered(is_valid, cands[i], true)
                        && forall|j: int| 0 <= j < i ==> answered(is_valid, #[trigger] cands[j], false),
                None => forall|j: int|
                    0 <= j < cands.len() ==> answered(is_valid, #[trigger] cands[j], false),
            }
        }),
{
    let seps = ['|'];
    let cands = split_fields_str(raw, &seps);
    proof {
        assert(seps@ =~= seq!['|']);
    }
    let mut i: usize = 0;
    while i < cands.len()
        invariant
            cands.deep_view() == choice_candidates(raw@),
            forall|x: &str| #[trigger] is_valid.requires((x,)),
            i <= cands@.len(),
            forall|j: int| 0 <= j < i ==> answered(is_valid, #[trigger] cands.deep_view()[j], false),
        decreases cands@.len() - i,
    {
        let c = cands[i].as_str();
        let ok = is_valid(c);
        proof {
            assert(cands.deep_view()[i as int] == c@);
            assert(is_valid.ensures((c,), ok));
        }
        if ok {
            return Some(cands[i].clone());
        }
        i = i + 1;
    }
    None
}

/// Where a choice function answers as the predicate `p` does, `resolve_choice` picks the
/// first alternative that `p` accepts.
pub proof fn lemma_choice_is_first_accepted<F: Fn(&str) -> bool>(
    cands: Seq<Seq<char>>,
    f: F,
    p: spec_fn(Seq<char>) -> bool,
    i: int,
)
    requires
        forall|x: &str, b: bool| #[trigger] f.ensures((x,), b) ==> b == p(x@),
        0 <= i <= cands.len(),
        i < cands.len() ==> answered(f, cands[i], true),
        forall|j: int| 0 <= j < i ==> answered(f, #[trigger] cands[j], false),
    ensures
        first_accepted(cands, p) == if i < cands.len() {
            Some(cands[i])
        } else {
            None::<Seq<char>>
        },
    decreases i,
{
    if i > 0 {
        assert(answered(f, cands[0], false));
        assert(!p(cands[0]));
        let rest = cands.drop_first();
        assert forall|j: int| 0 <= j < i - 1 implies answered(f, #[trigger] rest[j], false) by {
            assert(rest[j] == cands[j + 1]);
        }
        lemma_choice_is_first_accepted(rest, f, p, i - 1);
    } else if i < cands.len() {
        assert(p(cands[0]));
    }
}

} // verus!
