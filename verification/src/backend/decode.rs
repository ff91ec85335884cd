//! Decoding candidate tokens without committing them.
//!
//! A run decodes its tokens one after the other on a backend that appends a row
//! to its key and value cache for each. The backend decodes and cuts its cache
//! back; what is decoded next, what the run gives, and how far the cache is cut
//! back are decided here.
use vstd::prelude::*;

verus! {

/// What the backend is to do next.
#[derive(Clone, Copy, Debug, PartialEq, Eq, Structural)]
pub enum SpecAction {
    /// Decode the token at this place.
    Decode(usize),
    /// The run is over. The cache is cut back to a length, or left as it is.
    Finish { truncate_to: Option<usize>, success: bool },
}

/// A run in progress.
#[derive(Debug)]
pub struct SpecDecode {
    pre_len: usize,
    n_tokens: usize,
    keep_cache: bool,
    hiddens: Vec<Vec<u32>>,
    failed: bool,
}

/// What a run knows.
#[verifier::ext_equal]
pub ghost struct SpecState {
    /// The cache's length before the run.
    pub pre_len: nat,
    /// How many tokens there are.
    pub n_tokens: nat,
    /// Whether the rows of a run that succeeds stay in the cache.
    pub keep_cache: bool,
    /// What was decoded so far.
    pub hiddens: Seq<Seq<u32>>,
    /// Whether a token could not be decoded.
    pub failed: bool,
}

impl SpecState {
    /// What is to be done in this state.
    pub open spec fn action(self) -> SpecAction {
        if self.failed {
            SpecAction::Finish { truncate_to: Some(self.pre_len as usize), success: false }
        } else if self.hiddens.len() < self.n_tokens {
            SpecAction::Decode(self.hiddens.len() as usize)
        } else if self.keep_cache {
            SpecAction::Finish { truncate_to: None, success: true }
        } else {
            SpecAction::Finish { truncate_to: Some(self.pre_len as usize), success: true }
        }
    }

    /// The state after a token was decoded, or could not be.
    pub open spec fn after(self, outcome: Option<Seq<u32>>) -> SpecState {
        match outcome {
            Some(h) => SpecState { hiddens: self.hiddens.push(h), ..self },
            None => SpecState { failed: true, ..self },
        }
    }

    /// The state after some outcomes, for as long as tokens are left to decode.
    pub open spec fn run(self, outcomes: Seq<Option<Seq<u32>>>) -> SpecState
        decreases outcomes.len(),
    {
        if outcomes.len() == 0 || !(self.action() is Decode) {
            self
        } else {
            self.after(outcomes[0]).run(outcomes.skip(1))
        }
    }

    /// What the run gives back: every output, or nothing.
    pub open spec fn output(self) -> Option<Seq<Seq<u32>>> {
        if self.failed || self.hiddens.len() < self.n_tokens {
            None
        } else {
            Some(self.hiddens)
        }
    }
}

/// The outputs as sequences.
pub open spec fn rows_of(v: Seq<Vec<u32>>) -> Seq<Seq<u32>> {
    v.map_values(|row: Vec<u32>| row@)
}

impl SpecDecode {
    pub closed spec fn view(&self) -> SpecState {
        SpecState {
            pre_len: self.pre_len as nat,
            n_tokens: self.n_tokens as nat,
            keep_cache: self.keep_cache,
            hiddens: rows_of(self.hiddens@),
            failed: self.failed,
        }
    }

    /// A run over some tokens from a cache of a length. A backend without a
    /// cache has none.
    pub fn start(has_kv_cache: bool, pre_len: usize, n_tokens: usize, keep_cache: bool) -> (r:
        Option<SpecDecode>)
        ensures
            (r is Some) == has_kv_cache,
            r matches Some(s) ==> s@ == (SpecState {
                pre_len: pre_len as nat,
                n_tokens: n_tokens as nat,
                keep_cache,
                hiddens: Seq::empty(),
                failed: false,
            }),
    {
        if !has_kv_cache {
            return None;
        }
        let s = SpecDecode { pre_len, n_tokens, keep_cache, hiddens: Vec::new(), failed: false };
        assert(rows_of(s.hiddens@) =~= Seq::<Seq<u32>>::empty());
        Some(s)
    }

    /// What is to be done next.
    pub fn next(&self) -> (a: SpecAction)
        ensures
            a == self@.action(),
    {
        if self.failed {
            SpecAction::Finish { truncate_to: Some(self.pre_len), success: false }
        } else if self.hiddens.len() < self.n_tokens {
            SpecAction::Decode(self.hiddens.len())
        } else if self.keep_cache {
            SpecAction::Finish { truncate_to: None, success: true }
        } else {
            SpecAction::Finish { truncate_to: Some(self.pre_len), success: true }
        }
    }

    /// Takes what decoding the next token gave.
    pub fn accept(&mut self, outcome: Option<Vec<u32>>)
        requires
            old(self)@.action() is Decode,
        ensures
            final(self)@ == old(self)@.after(
                match outcome {
                    Some(h) => Some(h@),
                    None => None,
                },
            ),
    {
        match outcome {
            Some(h) => {
                let ghost before = self.hiddens@;
                let ghost row = h@;
                self.hiddens.push(h);
                assert(rows_of(self.hiddens@) =~= rows_of(before).push(row));
            },
            None => {
                self.failed = true;
            },
        }
    }

    /// What the run gives back once it is over.
    pub fn into_output(self) -> (r: Option<Vec<Vec<u32>>>)
        requires
            self@.action() is Finish,
        ensures
            match self@.output() {
                Some(rows) => r matches Some(v) && rows_of(v@) == rows,
                None => r is None,
            },
    {
        if self.failed {
            return None;
        }
        Some(self.hiddens)
    }
}

/// Whether every one of the first `n` outcomes is there.
pub open spec fn all_decoded(outcomes: Seq<Option<Seq<u32>>>, n: nat) -> bool {
    forall|i: int| 0 <= i < n ==> (#[trigger] outcomes[i]) is Some
}

/// A run gives one output for every token where all of them decode, in their
/// order, and nothing where one does not.
pub proof fn law_run_is_all_or_nothing(s: SpecState, outcomes: Seq<Option<Seq<u32>>>)
    requires
        !s.failed,
        s.hiddens.len() == 0,
        outcomes.len() >= s.n_tokens,
        s.n_tokens <= usize::MAX,
    ensures
        s.run(outcomes).action() is Finish,
        all_decoded(outcomes, s.n_tokens) ==> s.run(outcomes).output() == Some(
            Seq::new(s.n_tokens, |i: int| outcomes[i]->0),
        ),
        !all_decoded(outcomes, s.n_tokens) ==> s.run(outcomes).output() is None,
{
    lemma_run(s, outcomes);
    let r = s.run(outcomes);
    if all_decoded(outcomes, s.n_tokens) {
        assert(r.hiddens =~= Seq::new(s.n_tokens, |i: int| outcomes[i]->0));
    }
}

/// A run leaves the cache as it found it, whatever decoding appended, unless it
/// succeeds and its rows are to stay: then nothing is cut off.
pub proof fn law_cache_is_restored(
    s: SpecState,
    outcomes: Seq<Option<Seq<u32>>>,
    cache: Seq<Seq<u32>>,
    grown: Seq<Seq<u32>>,
)
    requires
        !s.failed,
        s.hiddens.len() == 0,
        outcomes.len() >= s.n_tokens,
        s.n_tokens <= usize::MAX,
        s.pre_len == cache.len(),
        cache.len() <= usize::MAX,
        cache.is_prefix_of(grown),
    ensures
        match s.run(outcomes).action() {
            SpecAction::Finish { truncate_to: Some(len), success } => grown.take(len as int)
                == cache && !(success && s.keep_cache),
            SpecAction::Finish { truncate_to: None, success } => success && s.keep_cache,
            SpecAction::Decode(_) => false,
        },
{
    lemma_run(s, outcomes);
    assert(grown.take(cache.len() as int) =~= cache);
}

proof fn lemma_run(s: SpecState, outcomes: Seq<Option<Seq<u32>>>)
    requires
        !s.failed,
        s.hiddens.len() <= s.n_tokens,
        outcomes.len() >= s.n_tokens - s.hiddens.len(),
        s.n_tokens <= usize::MAX,
    ensures
        ({
            let r = s.run(outcomes);
            let left = (s.n_tokens - s.hiddens.len()) as nat;
            &&& r.pre_len == s.pre_len
            &&& r.n_tokens == s.n_tokens
            &&& r.keep_cache == s.keep_cache
            &&& r.action() is Finish
            &&& r.failed == !all_decoded(outcomes, left)
            &&& !r.failed ==> r.hiddens == s.hiddens + Seq::new(left, |i: int| outcomes[i]->0)
        }),
    decreases outcomes.len(),
{
    let left = (s.n_tokens - s.hiddens.len()) as nat;
    if left == 0 {
        assert(s.hiddens =~= s.hiddens + Seq::new(left, |i: int| outcomes[i]->0));
    } else {
        let rest = outcomes.skip(1);
        let next = s.after(outcomes[0]);
        assert(s.run(outcomes) == next.run(rest));
        if outcomes[0] is Some {
            lemma_run(next, rest);
            assert(forall|i: int| 0 <= i < left - 1 ==> rest[i] == #[trigger] outcomes[i + 1]);
            assert(all_decoded(rest, (left - 1) as nat) == all_decoded(outcomes, left)) by {
                if all_decoded(rest, (left - 1) as nat) {
                    assert forall|i: int| 0 <= i < left implies (#[trigger] outcomes[i]) is Some by {
                        if i > 0 {
                            assert(rest[i - 1] == outcomes[i]);
                        }
                    }
                }
                if all_decoded(outcomes, left) {
                    assert forall|i: int| 0 <= i < left - 1 implies (#[trigger] rest[i]) is Some by {
                        assert(outcomes[i + 1] is Some);
                    }
                }
            }
            assert(next.hiddens + Seq::new((left - 1) as nat, |i: int| rest[i]->0) =~= s.hiddens
                + Seq::new(left, |i: int| outcomes[i]->0));
        } else {
            assert(next.failed);
            assert(next.run(rest) == next);
        }
    }
}

/// What a run does next: after a failure it ends without success, and the cache goes
/// back to its old length; while tokens are left it decodes the next one, by its
/// number; at the end it succeeds, and the cache keeps its new rows only where it was
/// asked to.
pub proof fn law_next_action(s: SpecState)
    requires
        s.pre_len <= usize::MAX,
        s.n_tokens <= usize::MAX,
    ensures
        s.failed ==> (s.action() matches SpecAction::Finish { truncate_to, success } && !success
            && truncate_to is Some && truncate_to->Some_0 == s.pre_len),
        !s.failed && s.hiddens.len() < s.n_tokens ==> (s.action() matches SpecAction::Decode(i) && i
            == s.hiddens.len()),
        !s.failed && s.hiddens.len() >= s.n_tokens && s.keep_cache ==> (s.action() matches
            SpecAction::Finish { truncate_to, success } && success && truncate_to is None),
        !s.failed && s.hiddens.len() >= s.n_tokens && !s.keep_cache ==> (s.action() matches
            SpecAction::Finish { truncate_to, success } && success && truncate_to is Some
            && truncate_to->Some_0 == s.pre_len),
{
}

/// A token's outcome: a row goes behind those of the tokens before it; nothing fails
/// the run and leaves the rows. Nothing else changes.
pub proof fn law_outcome_of_a_token(s: SpecState, row: Seq<u32>)
    ensures
        s.after(Some(row)).hiddens == s.hiddens.push(row),
        s.after(Some(row)).failed == s.failed,
        s.after(None).failed,
        s.after(None).hiddens == s.hiddens,
        s.after(Some(row)).n_tokens == s.n_tokens && s.after(None).n_tokens == s.n_tokens,
        s.after(Some(row)).pre_len == s.pre_len && s.after(None).pre_len == s.pre_len,
        s.after(Some(row)).keep_cache == s.keep_cache && s.after(None).keep_cache == s.keep_cache,
{
}

} // verus!
