//! The text of a broadcast: a template whose placeholder is replaced by the
//! time of the next transition, behind the marker that notifies the room.

use vstd::prelude::*;
use crate::text::{chars_of, matches_at, occurs_at};

verus! {

/// The token of a template that stands for the transition time.
pub const PLACEHOLDER: &'static str = "%time%";

/// The prefix that makes the chat service notify every member of the room.
pub const BROADCAST_MARKER: &'static str = "[toall]\n";

/// `text` with every occurrence of `token` replaced by `replacement`,
/// occurrences taken from the left and never overlapping. An empty token
/// occurs nowhere.
pub open spec fn substituted(text: Seq<char>, token: Seq<char>, replacement: Seq<char>) -> Seq<char>
    decreases text.len(),
{
    if token.len() == 0 || text.len() < token.len() {
        text
    } else if occurs_at(text, token, 0) {
        replacement + substituted(text.skip(token.len() as int), token, replacement)
    } else {
        seq![text[0]] + substituted(text.skip(1), token, replacement)
    }
}

/// The text of a broadcast for `template` and the clock time `time`.
pub open spec fn broadcast_text(template: Seq<char>, time: Seq<char>) -> Seq<char> {
    BROADCAST_MARKER@ + substituted(template, PLACEHOLDER@, time)
}

/// Replaces every occurrence of the placeholder in `template` by `time`.
pub fn substitute_time(template: &str, time: &str) -> (out: String)
    ensures
        out@ == substituted(template@, PLACEHOLDER@, time@),
{
    let text = chars_of(template);
    let token = chars_of(PLACEHOLDER);
    proof {
        reveal_strlit("%time%");
    }
    let n: usize = text.len();
    let m: usize = token.len();
    let mut out = String::new();
    let mut copied: usize = 0;
    let mut at: usize = 0;
    assert(text@.skip(0) =~= text@);
    assert(out@ + text@.subrange(0, 0) =~= Seq::<char>::empty());
    while m <= n - at
        invariant
            n == text.len(),
            m == token.len(),
            m > 0,
            text@ == template@,
            token@ == PLACEHOLDER@,
            copied <= at <= n,
            substituted(text@, token@, time@) == out@ + text@.subrange(copied as int, at as int)
                + substituted(text@.skip(at as int), token@, time@),
        decreases n - at,
    {
        let ghost rest = text@.skip(at as int);
        if matches_at(&text, &token, at) {
            assert(occurs_at(rest, token@, 0)) by {
                assert(rest.subrange(0, m as int) =~= text@.subrange(at as int, at + m));
            }
            assert(rest.skip(m as int) =~= text@.skip(at + m));
            out.append(template.substring_char(copied, at));
            out.append(time);
            at += m;
            copied = at;
            assert(text@.subrange(copied as int, at as int) =~= Seq::<char>::empty());
        } else {
            assert(!occurs_at(rest, token@, 0)) by {
                assert(rest.subrange(0, m as int) =~= text@.subrange(at as int, at + m));
            }
            assert(rest.skip(1) =~= text@.skip(at + 1));
            assert(text@.subrange(copied as int, at as int) + seq![rest[0]] =~= text@.subrange(
                copied as int,
                at + 1,
            ));
            at += 1;
        }
    }
    assert(text@.subrange(copied as int, at as int) + text@.skip(at as int) =~= text@.subrange(
        copied as int,
        n as int,
    ));
    out.append(template.substring_char(copied, n));
    out
}

/// The broadcast that announces a transition: the marker, then `template`
/// with the placeholder replaced by `time`.
pub fn broadcast_message(template: &str, time: &str) -> (out: String)
    ensures
        out@ == broadcast_text(template@, time@),
{
    let mut out = String::from_str(BROADCAST_MARKER);
    let body = substitute_time(template, time);
    out.append(body.as_str());
    out
}

/// Whether no character of `a` is a character of `b`.
pub open spec fn shares_no_char(a: Seq<char>, b: Seq<char>) -> bool {
    forall|i: int, j: int| 0 <= i < a.len() && 0 <= j < b.len() ==> a[i] != b[j]
}

/// Whether `token` stands nowhere in `text`.
pub open spec fn free_of(text: Seq<char>, token: Seq<char>) -> bool {
    forall|at: int| !occurs_at(text, token, at)
}

/// A stretch at the head of a substituted text that holds no character of
/// the replacement was copied from the head of the text as it stood.
proof fn lemma_untouched_prefix(
    text: Seq<char>,
    token: Seq<char>,
    replacement: Seq<char>,
    len: int,
)
    requires
        token.len() > 0,
        replacement.len() > 0,
        0 <= len <= substituted(text, token, replacement).len(),
        forall|i: int, j: int|
            0 <= i < len && 0 <= j < replacement.len() ==> substituted(
                text,
                token,
                replacement,
            )[i] != replacement[j],
    ensures
        len <= text.len(),
        forall|i: int| 0 <= i < len ==> text[i] == substituted(text, token, replacement)[i],
    decreases text.len(),
{
    let out = substituted(text, token, replacement);
    if len == 0 || text.len() < token.len() {
    } else if occurs_at(text, token, 0) {
        assert(out[0] == replacement[0]);
    } else {
        let rest = text.skip(1);
        let tail = substituted(rest, token, replacement);
        assert(out == seq![text[0]] + tail);
        assert forall|i: int, j: int| 0 <= i < len - 1 && 0 <= j < replacement.len() implies tail[i]
            != replacement[j] by {
            assert(tail[i] == out[i + 1]);
        }
        lemma_untouched_prefix(rest, token, replacement, len - 1);
        assert forall|i: int| 0 <= i < len implies text[i] == out[i] by {
            if i > 0 {
                assert(rest[i - 1] == text[i]);
                assert(tail[i - 1] == out[i]);
            }
        }
    }
}

/// After the substitution the token stands nowhere in the text, provided the
/// replacement is not empty and shares no character with the token.
pub proof fn lemma_substitution_leaves_no_token(
    text: Seq<char>,
    token: Seq<char>,
    replacement: Seq<char>,
)
    requires
        token.len() > 0,
        replacement.len() > 0,
        shares_no_char(replacement, token),
    ensures
        free_of(substituted(text, token, replacement), token),
    decreases text.len(),
{
    let n = token.len() as int;
    let out = substituted(text, token, replacement);
    if text.len() < token.len() {
    } else if occurs_at(text, token, 0) {
        let tail = substituted(text.skip(n), token, replacement);
        lemma_substitution_leaves_no_token(text.skip(n), token, replacement);
        assert forall|at: int| !occurs_at(out, token, at) by {
            if occurs_at(out, token, at) {
                if at < replacement.len() {
                    assert(out.subrange(at, at + n)[0] == token[0]);
                    assert(out[at] == replacement[at]);
                } else {
                    assert(out.subrange(at, at + n) =~= tail.subrange(
                        at - replacement.len(),
                        at - replacement.len() + n,
                    ));
                    assert(occurs_at(tail, token, at - replacement.len()));
                }
            }
        }
    } else {
        let rest = text.skip(1);
        let tail = substituted(rest, token, replacement);
        lemma_substitution_leaves_no_token(rest, token, replacement);
        assert(out == seq![text[0]] + tail);
        assert forall|at: int| !occurs_at(out, token, at) by {
            if occurs_at(out, token, at) {
                if at == 0 {
                    assert forall|k: int| 0 <= k < n implies out[k] == token[k] by {
                        assert(out.subrange(0, n)[k] == out[k]);
                    }
                    assert forall|i: int, j: int|
                        0 <= i < n - 1 && 0 <= j < replacement.len() implies tail[i]
                        != replacement[j] by {
                        assert(tail[i] == out[i + 1]);
                    }
                    lemma_untouched_prefix(rest, token, replacement, n - 1);
                    assert forall|k: int| 0 <= k < n implies text[k] == token[k] by {
                        if k > 0 {
                            assert(rest[k - 1] == text[k]);
                            assert(tail[k - 1] == out[k]);
                        }
                    }
                    assert(text.subrange(0, n) =~= token);
                } else {
                    assert(out.subrange(at, at + n) =~= tail.subrange(at - 1, at - 1 + n));
                    assert(occurs_at(tail, token, at - 1));
                }
            }
        }
    }
}

/// A text in which the token stands nowhere is left as it is.
pub proof fn lemma_substitution_keeps_token_free_text(
    text: Seq<char>,
    token: Seq<char>,
    replacement: Seq<char>,
)
    requires
        free_of(text, token),
    ensures
        substituted(text, token, replacement) == text,
    decreases text.len(),
{
    if token.len() == 0 || text.len() < token.len() {
    } else {
        assert(!occurs_at(text, token, 0));
        let n = token.len() as int;
        let rest = text.skip(1);
        assert forall|at: int| !occurs_at(rest, token, at) by {
            if occurs_at(rest, token, at) {
                assert(rest.subrange(at, at + n) =~= text.subrange(at + 1, at + 1 + n));
                assert(occurs_at(text, token, at + 1));
            }
        }
        lemma_substitution_keeps_token_free_text(rest, token, replacement);
        assert(seq![text[0]] + rest =~= text);
    }
}

/// Substituting a second time changes nothing: the first pass has replaced
/// every occurrence of the token.
pub proof fn lemma_substitution_is_idempotent(
    text: Seq<char>,
    token: Seq<char>,
    replacement: Seq<char>,
)
    requires
        token.len() > 0,
        replacement.len() > 0,
        shares_no_char(replacement, token),
    ensures
        substituted(substituted(text, token, replacement), token, replacement) == substituted(
            text,
            token,
            replacement,
        ),
{
    lemma_substitution_leaves_no_token(text, token, replacement);
    lemma_substitution_keeps_token_free_text(
        substituted(text, token, replacement),
        token,
        replacement,
    );
}

/// The leftmost occurrence of the token is replaced and what stands before
/// it is kept: where the token occurs at the end of `before + token` and
/// nowhere earlier in it, the substitution of `before + token + after` is
/// `before`, the replacement, and the substitution of `after`.
pub proof fn lemma_substitution_replaces_leftmost(
    before: Seq<char>,
    token: Seq<char>,
    after: Seq<char>,
    replacement: Seq<char>,
)
    requires
        token.len() > 0,
        forall|at: int| 0 <= at < before.len() ==> !occurs_at(before + token, token, at),
    ensures
        substituted(before + token + after, token, replacement) == before + replacement
            + substituted(after, token, replacement),
    decreases before.len(),
{
    let n = token.len() as int;
    let text = before + token + after;
    if before.len() == 0 {
        assert(text.subrange(0, n) =~= token);
        assert(text.skip(n) =~= after);
        assert(before + replacement =~= replacement);
    } else {
        assert(!occurs_at(text, token, 0)) by {
            assert(!occurs_at(before + token, token, 0));
            assert(text.subrange(0, n) =~= (before + token).subrange(0, n));
        }
        let shorter = before.skip(1);
        assert(text.skip(1) =~= shorter + token + after);
        assert forall|at: int| 0 <= at < shorter.len() implies !occurs_at(
            shorter + token,
            token,
            at,
        ) by {
            if occurs_at(shorter + token, token, at) {
                assert((shorter + token).subrange(at, at + n) =~= (before + token).subrange(
                    at + 1,
                    at + 1 + n,
                ));
                assert(occurs_at(before + token, token, at + 1));
            }
        }
        lemma_substitution_replaces_leftmost(shorter, token, after, replacement);
        assert(seq![text[0]] + (shorter + replacement + substituted(after, token, replacement))
            =~= before + replacement + substituted(after, token, replacement));
    }
}

} // verus!
