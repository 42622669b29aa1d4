//! State and text logic of the transcription service: the engine-handle
//! state machine with its replace-on-write law, model-path validation,
//! language-code derivation, and transcript assembly.
//!
//! The handle type is abstract here; the host shell instantiates it with
//! its shared engine reference, keeps the state in a mutual-exclusion
//! cell, and serializes replacements through that lock.

use vstd::prelude::*;
use vstd::string::*;

use crate::error::{Error, ErrorKind};
use crate::text::{chars_of, is_ws, lower_of, lowercase, string_from_chars, trim_chars, trim_spec};

verus! {

/// The transcription service's engine state: no model loaded yet, or ready
/// with the currently loaded handle.
pub enum EngineState<H> {
    Uninitialized,
    Ready(H),
}

/// Message of a blank model path.
pub open spec fn blank_path_text() -> Seq<char> {
    "no model path supplied"@
}

/// Validates a requested model path before any engine call: a path that is
/// empty after trimming is rejected; otherwise the trimmed path is what
/// the engine is asked to load.
pub fn plan_init(model_path: &String) -> (r: Result<String, Error>)
    ensures
        trim_spec(model_path@).len() > 0 ==> (r matches Ok(p) && p@ == trim_spec(model_path@)),
        trim_spec(model_path@).len() == 0 ==> (r matches Err(e) && e.kind
            == ErrorKind::InvalidArgument && e.message@ == blank_path_text()),
{
    let t = trim_chars(&chars_of(model_path.as_str()));
    if t.len() == 0 {
        Err(Error::new(ErrorKind::InvalidArgument, String::from_str("no model path supplied")))
    } else {
        Ok(string_from_chars(&t))
    }
}

/// Confirmation message of a successful load.
pub open spec fn init_ok_text() -> Seq<char> {
    "speech engine initialized"@
}

/// Message prefix of a failed engine load.
pub open spec fn load_err_prefix() -> Seq<char> {
    "speech model could not be loaded: "@
}

/// Applies a load outcome to the engine state: a successful load replaces
/// the handle wholesale; a failed load leaves the state unchanged and
/// reports the engine's message.
pub fn complete_init<H>(state: EngineState<H>, outcome: Result<H, String>) -> (r: (
    EngineState<H>,
    Result<String, Error>,
))
    ensures
        outcome matches Ok(h) ==> (r.0 == EngineState::<H>::Ready(h) && (r.1 matches Ok(m) && m@
            == init_ok_text())),
        outcome matches Err(msg) ==> (r.0 == state && (r.1 matches Err(e) && e.kind
            == ErrorKind::EngineLoadError && e.message@ == load_err_prefix() + msg@)),
{
    match outcome {
        Ok(h) => (EngineState::Ready(h), Ok(String::from_str("speech engine initialized"))),
        Err(msg) => {
            let mut m = String::from_str("speech model could not be loaded: ");
            m.append(msg.as_str());
            (state, Err(Error::new(ErrorKind::EngineLoadError, m)))
        },
    }
}

/// Message of a transcription requested before any successful load.
pub open spec fn not_init_text() -> Seq<char> {
    "speech engine is not initialized"@
}

/// The handle a request observes: the loaded handle when ready, and a
/// not-initialized failure otherwise.
pub fn snapshot<H>(state: &EngineState<H>) -> (r: Result<&H, Error>)
    ensures
        *state matches EngineState::Ready(h) ==> (r matches Ok(g) && *g == h),
        *state is Uninitialized ==> (r matches Err(e) && e.kind == ErrorKind::NotInitialized
            && e.message@ == not_init_text()),
{
    match state {
        EngineState::Ready(h) => Ok(h),
        EngineState::Uninitialized => Err(
            Error::new(ErrorKind::NotInitialized, String::from_str("speech engine is not initialized")),
        ),
    }
}

/// The engine state after a serialized sequence of load outcomes, applied
/// in order: each success replaces the handle, each failure leaves the
/// state as it was.
pub open spec fn state_after<H>(s0: EngineState<H>, outcomes: Seq<Result<H, String>>) -> EngineState<
    H,
>
    decreases outcomes.len(),
{
    if outcomes.len() == 0 {
        s0
    } else {
        let next = match outcomes[0] {
            Ok(h) => EngineState::Ready(h),
            Err(_) => s0,
        };
        state_after(next, outcomes.drop_first())
    }
}

proof fn lemma_state_after_push<H>(
    s0: EngineState<H>,
    outcomes: Seq<Result<H, String>>,
    o: Result<H, String>,
)
    ensures
        state_after(s0, outcomes.push(o)) == (match o {
            Ok(h) => EngineState::<H>::Ready(h),
            Err(_) => state_after(s0, outcomes),
        }),
    decreases outcomes.len(),
{
    reveal_with_fuel(state_after, 3);
    let p = outcomes.push(o);
    if outcomes.len() == 0 {
        assert(p[0] == o);
        assert(p.drop_first() =~= Seq::<Result<H, String>>::empty());
    } else {
        assert(p[0] == outcomes[0]);
        assert(p.drop_first() =~= outcomes.drop_first().push(o));
        let next = match outcomes[0] {
            Ok(h) => EngineState::<H>::Ready(h),
            Err(_) => s0,
        };
        lemma_state_after_push(next, outcomes.drop_first(), o);
    }
}

/// Law: a sequence of load completions in which none succeeded leaves the
/// engine state exactly as it started.
pub proof fn lemma_no_success_no_change<H>(s0: EngineState<H>, outcomes: Seq<Result<H, String>>)
    requires
        forall|j: int| 0 <= j < outcomes.len() ==> !(#[trigger] outcomes[j] is Ok),
    ensures
        state_after(s0, outcomes) == s0,
    decreases outcomes.len(),
{
    if outcomes.len() > 0 {
        let front = outcomes.drop_last();
        lemma_no_success_no_change(s0, front);
        lemma_state_after_push(s0, front, outcomes.last());
        assert(front.push(outcomes.last()) =~= outcomes);
    }
}

/// Law (last writer wins): after any serialized sequence of load
/// completions, the state observed by a subsequent request is `Ready` with
/// exactly the handle of the last successful load — never a mixture of
/// outcomes or a fabricated handle. `i` is the index of that last success.
pub proof fn lemma_last_writer_wins<H>(
    s0: EngineState<H>,
    outcomes: Seq<Result<H, String>>,
    i: int,
)
    requires
        0 <= i < outcomes.len(),
        outcomes[i] is Ok,
        forall|j: int| i < j < outcomes.len() ==> !(#[trigger] outcomes[j] is Ok),
    ensures
        outcomes[i] matches Ok(h) && state_after(s0, outcomes) == EngineState::<H>::Ready(h),
    decreases outcomes.len(),
{
    let front = outcomes.drop_last();
    let last = outcomes.last();
    assert(front.push(last) =~= outcomes);
    lemma_state_after_push(s0, front, last);
    if i == outcomes.len() - 1 {
    } else {
        assert(!(last is Ok));
        lemma_last_writer_wins(s0, front, i);
    }
}

/// The fixed fallback language code.
pub open spec fn default_language() -> Seq<char> {
    "de"@
}

/// The effective language code of a hint: the hint is trimmed and
/// lowercased; its first two characters are used when at least two are
/// present, and the fallback code otherwise.
pub open spec fn hint_code(h: Seq<char>) -> Seq<char> {
    let l = lower_of(trim_spec(h));
    if l.len() >= 2 {
        l.subrange(0, 2)
    } else {
        default_language()
    }
}

/// Derives the effective language code from an optional hint; an absent
/// hint yields the fallback code.
pub fn resolve_language(lang: Option<String>) -> (r: String)
    ensures
        lang matches Some(h) ==> r@ == hint_code(h@),
        lang is None ==> r@ == default_language(),
{
    match lang {
        None => String::from_str("de"),
        Some(h) => {
            let t = trim_chars(&chars_of(h.as_str()));
            let lw = lowercase(&string_from_chars(&t));
            let lc = chars_of(lw.as_str());
            if lc.len() >= 2 {
                let mut two: Vec<char> = Vec::new();
                two.push(lc[0]);
                two.push(lc[1]);
                proof {
                    assert(two@ =~= lower_of(trim_spec(h@)).subrange(0, 2));
                }
                string_from_chars(&two)
            } else {
                String::from_str("de")
            }
        },
    }
}

/// The transcript assembled from the trimmed segments, in order, with
/// exactly one space between non-empty segments and none at the ends.
pub open spec fn joined_segments(segs: Seq<Seq<char>>) -> Seq<char>
    decreases segs.len(),
{
    if segs.len() == 0 {
        Seq::empty()
    } else {
        let front = joined_segments(segs.drop_last());
        let t = trim_spec(segs.last());
        if t.len() == 0 {
            front
        } else if front.len() == 0 {
            t
        } else {
            front + seq![' '] + t
        }
    }
}

/// Law: the assembled transcript never carries leading or trailing
/// whitespace — in particular, empty or whitespace-only segments leave no
/// stray space at either end.
pub proof fn lemma_transcript_trimmed(segs: Seq<Seq<char>>)
    ensures
        joined_segments(segs).len() > 0 ==> !is_ws(joined_segments(segs)[0]) && !is_ws(
            joined_segments(segs).last(),
        ),
    decreases segs.len(),
{
    if segs.len() > 0 {
        lemma_transcript_trimmed(segs.drop_last());
        crate::text::lemma_trim_ends(segs.last());
        let front = joined_segments(segs.drop_last());
        let t = trim_spec(segs.last());
        if t.len() > 0 && front.len() > 0 {
            let j = front + seq![' '] + t;
            assert(j[0] == front[0]);
            assert(j.last() == t.last());
        }
    }
}

/// Assembles the ordered decoded segments into the final transcript.
#[verifier::loop_isolation(false)]
pub fn assemble_transcript(segments: &Vec<String>) -> (r: String)
    ensures
        r@ == joined_segments(segments@.map_values(|s: String| s@)),
{
    let mut acc: Vec<char> = Vec::new();
    let n = segments.len();
    let mut i: usize = 0;
    while i < n
        invariant
            i <= n,
            acc@ == joined_segments(segments@.subrange(0, i as int).map_values(|s: String| s@)),
        decreases n - i,
    {
        let ghost prev = segments@.subrange(0, i as int).map_values(|s: String| s@);
        let ghost cur = segments@.subrange(0, i + 1 as int).map_values(|s: String| s@);
        proof {
            assert(cur.drop_last() =~= prev);
            assert(cur.last() == segments@[i as int]@);
        }
        let t = trim_chars(&chars_of(segments[i].as_str()));
        if t.len() > 0 {
            if acc.len() > 0 {
                acc.push(' ');
                let mut tt = t;
                acc.append(&mut tt);
                assert(acc@ =~= joined_segments(prev) + seq![' '] + trim_spec(cur.last()));
            } else {
                let mut tt = t;
                acc.append(&mut tt);
                assert(acc@ =~= trim_spec(cur.last()));
            }
        }
        i += 1;
    }
    proof {
        assert(segments@.subrange(0, n as int) =~= segments@);
    }
    string_from_chars(&acc)
}

} // verus!
