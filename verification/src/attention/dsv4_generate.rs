//! Generating behind a cached prompt: which token is run next, at which
//! position, and when to stop.
use vstd::prelude::*;

verus! {

/// What to do after a token was sampled.
#[derive(Clone, Copy, Debug, PartialEq, Eq, Structural)]
pub enum DecodeStep {
    /// Run the model on the token at the position.
    Forward { token: u32, pos: usize },
    /// The sequence is complete.
    Stop,
}

/// A decode loop in progress: the prompt and what was sampled behind it.
pub struct DecodeLoop {
    tokens: Vec<u32>,
    prompt_len: usize,
    max_new_tokens: usize,
    eos_token: Option<u32>,
    done: bool,
}

/// The sequence that a prompt and a stream of samples yield: the samples up to
/// and with the first end token, and at most `max` of them.
pub open spec fn decoded(samples: Seq<u32>, max: nat, eos: Option<u32>) -> Seq<u32>
    decreases samples.len(),
{
    if samples.len() == 0 || max == 0 {
        Seq::empty()
    } else if eos == Some(samples[0]) {
        seq![samples[0]]
    } else {
        seq![samples[0]] + decoded(samples.skip(1), (max - 1) as nat, eos)
    }
}

impl DecodeLoop {
    /// The sequence so far.
    pub closed spec fn sequence(&self) -> Seq<u32> {
        self.tokens@
    }

    /// How long the prompt is.
    pub closed spec fn prompt(&self) -> nat {
        self.prompt_len as nat
    }

    /// How many tokens may come behind the prompt.
    pub closed spec fn limit(&self) -> nat {
        self.max_new_tokens as nat
    }

    /// The token that ends the sequence.
    pub closed spec fn eos(&self) -> Option<u32> {
        self.eos_token
    }

    /// Nothing more is sampled.
    pub closed spec fn finished(&self) -> bool {
        self.done
    }

    /// The sequence starts with the prompt and is no longer than allowed; where
    /// it is that long nothing more is sampled.
    pub closed spec fn wf(&self) -> bool {
        &&& 0 < self.prompt_len <= self.tokens@.len()
        &&& self.prompt_len + self.max_new_tokens <= usize::MAX
        &&& self.tokens@.len() <= self.prompt_len + self.max_new_tokens
        &&& self.tokens@.len() == self.prompt_len + self.max_new_tokens ==> self.done
    }

    /// How many rows a layer's cache needs for the whole sequence.
    pub fn cache_rows(&self) -> (n: usize)
        requires
            self.wf(),
        ensures
            n == self.prompt() + self.limit(),
            n > 0,
    {
        self.prompt_len + self.max_new_tokens
    }

    /// Starts behind a prompt.
    pub fn start(prompt: &[u32], max_new_tokens: usize, eos_token: Option<u32>) -> (d: Self)
        requires
            prompt@.len() > 0,
            prompt@.len() + max_new_tokens <= usize::MAX,
        ensures
            d.wf(),
            d.sequence() == prompt@,
            d.prompt() == prompt@.len(),
            d.limit() == max_new_tokens,
            d.eos() == eos_token,
            d.finished() == (max_new_tokens == 0),
    {
        let tokens: Vec<u32> = vstd::slice::slice_to_vec(prompt);
        assert(tokens@ =~= prompt@);
        DecodeLoop {
            tokens,
            prompt_len: prompt.len(),
            max_new_tokens,
            eos_token,
            done: max_new_tokens == 0,
        }
    }

    /// Takes a sampled token. The model runs on it unless it ends the sequence
    /// or is the last one allowed; its position lies inside the cache.
    pub fn accept(&mut self, next: u32) -> (step: DecodeStep)
        requires
            old(self).wf(),
            !old(self).finished(),
        ensures
            final(self).wf(),
            final(self).sequence() == old(self).sequence().push(next),
            final(self).prompt() == old(self).prompt(),
            final(self).limit() == old(self).limit(),
            final(self).eos() == old(self).eos(),
            final(self).finished() == (old(self).eos() == Some(next)
                || final(self).sequence().len() == final(self).prompt() + final(self).limit()),
            step == (if final(self).finished() {
                DecodeStep::Stop
            } else {
                DecodeStep::Forward { token: next, pos: old(self).sequence().len() as usize }
            }),
            step matches DecodeStep::Forward { token, pos } ==> pos < final(self).prompt()
                + final(self).limit(),
    {
        let pos: usize = self.tokens.len();
        self.tokens.push(next);
        let ended: bool = match self.eos_token {
            Some(e) => e == next,
            None => false,
        };
        if ended || self.tokens.len() == self.prompt_len + self.max_new_tokens {
            self.done = true;
            DecodeStep::Stop
        } else {
            DecodeStep::Forward { token: next, pos }
        }
    }

    /// Whether nothing more is sampled.
    pub fn is_finished(&self) -> (r: bool)
        ensures
            r == self.finished(),
    {
        self.done
    }

    /// The sequence.
    pub fn into_tokens(self) -> (t: Vec<u32>)
        ensures
            t@ == self.sequence(),
    {
        self.tokens
    }
}

/// The sequence that a prompt and a stream of samples yield.
pub fn dsv4_generate(
    prompt: &[u32],
    max_new_tokens: usize,
    eos_token: Option<u32>,
    samples: &[u32],
) -> (tokens: Vec<u32>)
    requires
        prompt@.len() > 0,
        prompt@.len() + max_new_tokens <= usize::MAX,
    ensures
        tokens@ == prompt@ + decoded(samples@, max_new_tokens as nat, eos_token),
{
    let mut d: DecodeLoop = DecodeLoop::start(prompt, max_new_tokens, eos_token);
    let ghost whole = prompt@ + decoded(samples@, max_new_tokens as nat, eos_token);
    let mut i: usize = 0;
    assert(samples@.skip(0) =~= samples@);
    proof {
        if max_new_tokens == 0 {
            assert(whole =~= prompt@);
        }
    }
    while i < samples.len() && !d.is_finished()
        invariant
            i <= samples@.len(),
            d.wf(),
            d.prompt() == prompt@.len(),
            d.limit() == max_new_tokens,
            d.eos() == eos_token,
            whole == prompt@ + decoded(samples@, max_new_tokens as nat, eos_token),
            d.sequence().len() == prompt@.len() + i,
            d.finished() ==> d.sequence() == whole,
            !d.finished() ==> i < max_new_tokens && d.sequence() + decoded(
                samples@.skip(i as int),
                (max_new_tokens - i) as nat,
                eos_token,
            ) == whole,
        decreases samples@.len() - i,
    {
        let ghost before = d.sequence();
        let ghost left = samples@.skip(i as int);
        let ghost room = (max_new_tokens - i) as nat;
        let next: u32 = samples[i];
        let step: DecodeStep = d.accept(next);
        proof {
            assert(left.skip(1) =~= samples@.skip(i + 1));
            let rest = decoded(left.skip(1), (room - 1) as nat, eos_token);
            assert(before + (seq![next] + rest) =~= before.push(next) + rest);
            assert(before + seq![next] =~= before.push(next));
            if d.finished() && eos_token != Some(next) {
                assert(rest =~= Seq::<u32>::empty());
                assert(before.push(next) + rest =~= before.push(next));
            }
        }
        i += 1;
    }
    proof {
        if !d.finished() {
            assert(samples@.skip(i as int) =~= Seq::<u32>::empty());
            assert(d.sequence() + Seq::<u32>::empty() =~= d.sequence());
        }
    }
    d.into_tokens()
}

/// The generated part is a prefix of the samples, no longer than allowed, and
/// only its last token can be the end token.
pub proof fn law_decoded_is_a_prefix(samples: Seq<u32>, max: nat, eos: Option<u32>)
    ensures
        decoded(samples, max, eos).len() <= max,
        decoded(samples, max, eos).len() <= samples.len(),
        decoded(samples, max, eos) == samples.take(decoded(samples, max, eos).len() as int),
        forall|i: int|
            0 <= i < decoded(samples, max, eos).len() - 1 ==> eos != Some(#[trigger] decoded(
                samples,
                max,
                eos,
            )[i]),
    decreases samples.len(),
{
    let out = decoded(samples, max, eos);
    if samples.len() == 0 || max == 0 {
        assert(out =~= samples.take(0));
    } else if eos == Some(samples[0]) {
        assert(out =~= samples.take(1));
    } else {
        let rest = decoded(samples.skip(1), (max - 1) as nat, eos);
        law_decoded_is_a_prefix(samples.skip(1), (max - 1) as nat, eos);
        assert forall|i: int| 0 <= i < out.len() implies out[i] == samples[i] by {
            if i > 0 {
                assert(out[i] == rest[i - 1]);
                assert(rest[i - 1] == samples.skip(1).take(rest.len() as int)[i - 1]);
            }
        }
        assert(out =~= samples.take(out.len() as int));
        assert forall|i: int| 0 <= i < out.len() - 1 implies eos != Some(#[trigger] out[i]) by {
            if i > 0 {
                assert(out[i] == rest[i - 1]);
            }
        }
    }
}

/// A generation that stays below its limit, with samples left, ended in the end
/// token.
pub proof fn law_short_generation_ended(samples: Seq<u32>, max: nat, eos: Option<u32>)
    requires
        decoded(samples, max, eos).len() < max,
        decoded(samples, max, eos).len() < samples.len(),
    ensures
        decoded(samples, max, eos).len() > 0,
        eos == Some(decoded(samples, max, eos).last()),
    decreases samples.len(),
{
    let out = decoded(samples, max, eos);
    if eos != Some(samples[0]) {
        let rest = decoded(samples.skip(1), (max - 1) as nat, eos);
        law_short_generation_ended(samples.skip(1), (max - 1) as nat, eos);
        assert(out.last() == rest.last());
    }
}

} // verus!
