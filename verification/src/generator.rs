//! The matching engine and the worker loop: generate candidate keypairs,
//! encode each public key, test the address against the configured patterns,
//! and report matches while accounting for every attempt.

use crate::onion;
use std::sync::atomic::{AtomicBool, AtomicU64, Ordering};
use std::sync::Arc;
use vstd::prelude::*;
use vstd::string::StrSliceExecFns;

verus! {

/// The sender half of the result channel.
#[verifier::external_type_specification]
#[verifier::external_body]
#[verifier::reject_recursive_types(T)]
pub struct ExSender<T>(crossbeam_channel::Sender<T>);

/// A compiled regular expression.
#[verifier::external_type_specification]
#[verifier::external_body]
pub struct ExRegex(regex::Regex);

/// A thread-local cryptographically secure random source.
#[verifier::external_type_specification]
#[verifier::external_body]
pub struct ExThreadRng(rand::rngs::ThreadRng);

/// The ed25519 public key that belongs to a 32-byte seed; fixed by the
/// signature scheme alone.
pub uninterp spec fn ed25519_public_of(seed: Seq<u8>) -> Seq<u8>;

/// Whether a pattern is a valid regular expression; compiling is
/// deterministic in the pattern text.
pub uninterp spec fn regex_valid(pattern: Seq<char>) -> bool;

/// Whether a regular expression matches anywhere in a text; a function of
/// the pattern and the text alone.
pub uninterp spec fn regex_matches(pattern: Seq<char>, text: Seq<char>) -> bool;

/// The lowercase form of a string; a function of its characters alone.
pub uninterp spec fn lower_of(s: Seq<char>) -> Seq<char>;

/// A freshly generated keypair, as raw bytes: the 32-byte private seed and
/// the 32-byte public key derived from it.
pub struct KeyPair {
    pub seed: [u8; 32],
    pub public_key: [u8; 32],
}

impl KeyPair {
    /// The public half really is the one the seed determines.
    pub open spec fn wf(&self) -> bool {
        self.public_key@ == ed25519_public_of(self.seed@)
    }
}

/// A match found by a worker: the keypair and the address that matched.
pub struct MatchResult {
    pub key_pair: KeyPair,
    pub onion_address: String,
}

impl MatchResult {
    /// The address is the encoding of the keypair's own public key.
    pub open spec fn wf(&self) -> bool {
        self.key_pair.wf() && self.onion_address@ == onion::spec_onion_address(
            self.key_pair.public_key@,
        )
    }
}

/// A regular expression kept together with the pattern text it was compiled
/// from; built only by `compile_regex`, so the two always agree.
pub struct CompiledRegex {
    pattern: String,
    re: regex::Regex,
}

impl CompiledRegex {
    /// The pattern text this regular expression was compiled from.
    pub closed spec fn spec_pattern(&self) -> Seq<char> {
        self.pattern@
    }
}

/// Relies on regex::Regex::new: compiling is deterministic in the pattern
/// text; on failure the error's rendering is returned as the message.
#[verifier::external_body]
fn compile_regex(pattern: &str) -> (r: Result<CompiledRegex, String>)
    ensures
        r is Ok <==> regex_valid(pattern@),
        r matches Ok(c) ==> c.spec_pattern() == pattern@,
{
    match regex::Regex::new(pattern) {
        Ok(re) => Ok(CompiledRegex { pattern: pattern.to_owned(), re }),
        Err(e) => Err(format!("{e}")),
    }
}

/// Relies on regex::Regex::is_match: whether a compiled pattern matches
/// anywhere in the text is a function of the pattern and the text alone.
#[verifier::external_body]
fn regex_is_match(c: &CompiledRegex, text: &str) -> (r: bool)
    ensures
        r == regex_matches(c.spec_pattern(), text@),
{
    c.re.is_match(text)
}

/// Relies on regex::Regex::clone: the copy is compiled from the same pattern.
#[verifier::external_body]
fn clone_compiled(c: &CompiledRegex) -> (r: CompiledRegex)
    ensures
        r.spec_pattern() == c.spec_pattern(),
{
    CompiledRegex { pattern: c.pattern.clone(), re: c.re.clone() }
}

/// Relies on str::to_lowercase: the result depends on the characters alone.
#[verifier::external_body]
fn to_lowercase(s: &str) -> (r: String)
    ensures
        r@ == lower_of(s@),
{
    s.to_lowercase()
}

/// Relies on rand::thread_rng: a handle to this thread's secure random
/// source.
#[verifier::external_body]
fn new_rng() -> rand::rngs::ThreadRng {
    rand::thread_rng()
}

/// Relies on ed25519_dalek::SigningKey::generate and to_bytes: draws a fresh
/// random 32-byte seed from the given source; nothing holds of its value.
#[verifier::external_body]
fn generate_seed(rng: &mut rand::rngs::ThreadRng) -> (r: [u8; 32])
{
    ed25519_dalek::SigningKey::generate(rng).to_bytes()
}

/// Relies on ed25519_dalek::SigningKey::{from_bytes, verifying_key}: the
/// public key is a function of the seed alone.
#[verifier::external_body]
fn public_key_of_seed(seed: &[u8; 32]) -> (r: [u8; 32])
    ensures
        r@ == ed25519_public_of(seed@),
{
    ed25519_dalek::SigningKey::from_bytes(seed).verifying_key().to_bytes()
}

/// Relies on crossbeam_channel::Sender::send: delivers the result unless
/// every receiver is gone; failure is the worker's silent stop signal. Only
/// well-formed results enter the channel.
#[verifier::external_body]
fn send_result(tx: &crossbeam_channel::Sender<MatchResult>, r: MatchResult) -> (ok: bool)
    requires
        r.wf(),
{
    tx.send(r).is_ok()
}

/// Generate one candidate keypair from the thread's random source.
pub fn generate_keypair(rng: &mut rand::rngs::ThreadRng) -> (kp: KeyPair)
    ensures
        kp.wf(),
{
    let seed = generate_seed(rng);
    let public_key = public_key_of_seed(&seed);
    KeyPair { seed, public_key }
}

/// An invalid pattern, with the compiler's message.
pub struct PatternError {
    pub pattern: String,
    pub message: String,
}

/// Matching strategy: a list of lowercase literal prefixes, or a list of
/// compiled regular expressions. A query is an existential OR over the list.
pub enum Matcher {
    Prefix(Vec<String>),
    Regex(Vec<CompiledRegex>),
}

/// Whether a matcher accepts an address: some configured prefix is a literal
/// prefix of it, or some configured pattern matches anywhere in it.
pub open spec fn spec_matches(m: &Matcher, addr: Seq<char>) -> bool {
    match m {
        Matcher::Prefix(ps) => exists|k: int|
            0 <= k < ps@.len() && (#[trigger] ps@[k])@.is_prefix_of(addr),
        Matcher::Regex(rs) => exists|k: int|
            0 <= k < rs@.len() && regex_matches((#[trigger] rs@[k]).spec_pattern(), addr),
    }
}

/// True iff `p` is a literal prefix of `s`, character for character.
fn starts_with_prefix(s: &str, p: &str) -> (r: bool)
    ensures
        r == p@.is_prefix_of(s@),
{
    let n = p.unicode_len();
    let m = s.unicode_len();
    if n > m {
        return false;
    }
    let mut i: usize = 0;
    while i < n
        invariant
            i <= n,
            n == p@.len(),
            n <= m == s@.len(),
            forall|j: int| 0 <= j < i ==> p@[j] == s@[j],
        decreases n - i,
    {
        if p.get_char(i) != s.get_char(i) {
            assert(!p@.is_prefix_of(s@)) by {
                if p@.is_prefix_of(s@) {
                    assert(p@[i as int] == s@.subrange(0, n as int)[i as int]);
                }
            }
            return false;
        }
        i = i + 1;
    }
    assert(p@ =~= s@.subrange(0, n as int));
    true
}

impl Matcher {
    /// Build a prefix matcher: each pattern is case-folded once, here.
    pub fn prefixes(patterns: &Vec<String>) -> (m: Matcher)
        ensures
            m matches Matcher::Prefix(ps) && ps@.len() == patterns@.len() && forall|k: int|
                0 <= k < patterns@.len() ==> (#[trigger] ps@[k])@ == lower_of(patterns@[k]@),
    {
        let mut ps: Vec<String> = Vec::new();
        let mut i: usize = 0;
        while i < patterns.len()
            invariant
                i <= patterns@.len(),
                ps@.len() == i,
                forall|k: int| 0 <= k < i ==> (#[trigger] ps@[k])@ == lower_of(patterns@[k]@),
            decreases patterns@.len() - i,
        {
            ps.push(to_lowercase(patterns[i].as_str()));
            i = i + 1;
        }
        Matcher::Prefix(ps)
    }

    /// Compile each pattern as a regular expression. Succeeds iff every
    /// pattern is valid; otherwise reports the first invalid pattern with
    /// the compiler's message, and no matcher is built.
    pub fn regexes(patterns: &Vec<String>) -> (r: Result<Matcher, PatternError>)
        ensures
            r is Ok <==> (forall|k: int|
                0 <= k < patterns@.len() ==> regex_valid((#[trigger] patterns@[k])@)),
            r matches Ok(m) ==> m matches Matcher::Regex(rs) && rs@.len() == patterns@.len()
                && forall|k: int|
                0 <= k < patterns@.len() ==> (#[trigger] rs@[k]).spec_pattern()
                    == patterns@[k]@,
            r matches Err(e) ==> exists|k: int|
                0 <= k < patterns@.len() && !regex_valid((#[trigger] patterns@[k])@)
                    && e.pattern@ == patterns@[k]@,
    {
        let mut rs: Vec<CompiledRegex> = Vec::new();
        let mut i: usize = 0;
        while i < patterns.len()
            invariant
                i <= patterns@.len(),
                rs@.len() == i,
                forall|k: int| 0 <= k < i ==> regex_valid((#[trigger] patterns@[k])@),
                forall|k: int| 0 <= k < i ==> (#[trigger] rs@[k]).spec_pattern()
                    == patterns@[k]@,
            decreases patterns@.len() - i,
        {
            match compile_regex(patterns[i].as_str()) {
                Ok(c) => {
                    rs.push(c);
                },
                Err(message) => {
                    return Err(
                        PatternError { pattern: patterns[i].clone(), message },
                    );
                },
            }
            i = i + 1;
        }
        Ok(Matcher::Regex(rs))
    }

    /// Whether the address matches: true iff some configured prefix is a
    /// literal prefix of it, or some configured pattern matches anywhere.
    #[verifier::loop_isolation(false)]
    pub fn is_match(&self, addr: &str) -> (r: bool)
        ensures
            r == spec_matches(self, addr@),
    {
        match self {
            Matcher::Prefix(ps) => {
                let mut i: usize = 0;
                while i < ps.len()
                    invariant
                        i <= ps@.len(),
                        forall|k: int| 0 <= k < i ==> !(#[trigger] ps@[k])@.is_prefix_of(addr@),
                    decreases ps@.len() - i,
                {
                    if starts_with_prefix(addr, ps[i].as_str()) {
                        assert((ps@[i as int])@.is_prefix_of(addr@));
                        return true;
                    }
                    i = i + 1;
                }
                false
            },
            Matcher::Regex(rs) => {
                let mut i: usize = 0;
                while i < rs.len()
                    invariant
                        i <= rs@.len(),
                        forall|k: int|
                            0 <= k < i ==> !regex_matches(
                                (#[trigger] rs@[k]).spec_pattern(),
                                addr@,
                            ),
                    decreases rs@.len() - i,
                {
                    if regex_is_match(&rs[i], addr) {
                        assert(regex_matches((rs@[i as int]).spec_pattern(), addr@));
                        return true;
                    }
                    i = i + 1;
                }
                false
            },
        }
    }

    /// A copy that accepts exactly the same addresses.
    #[verifier::loop_isolation(false)]
    pub fn duplicate(&self) -> (r: Matcher)
        ensures
            forall|addr: Seq<char>| spec_matches(&r, addr) == spec_matches(self, addr),
    {
        match self {
            Matcher::Prefix(ps) => {
                let mut out: Vec<String> = Vec::new();
                let mut i: usize = 0;
                while i < ps.len()
                    invariant
                        i <= ps@.len(),
                        out@.len() == i,
                        forall|k: int| 0 <= k < i ==> (#[trigger] out@[k])@ == ps@[k]@,
                    decreases ps@.len() - i,
                {
                    out.push(ps[i].clone());
                    i = i + 1;
                }
                let ghost out_view = out@;
                let r = Matcher::Prefix(out);
                assert forall|addr: Seq<char>|
                    spec_matches(&r, addr) == spec_matches(self, addr) by {
                    assert(r->Prefix_0@ == out_view);
                    assert(self->Prefix_0@ == ps@);
                    lemma_prefix_lists_agree(out_view, ps@, addr);
                }
                r
            },
            Matcher::Regex(rs) => {
                let mut out: Vec<CompiledRegex> = Vec::new();
                let mut i: usize = 0;
                while i < rs.len()
                    invariant
                        i <= rs@.len(),
                        out@.len() == i,
                        forall|k: int| 0 <= k < i ==> (#[trigger] out@[k]).spec_pattern()
                            == rs@[k].spec_pattern(),
                    decreases rs@.len() - i,
                {
                    out.push(clone_compiled(&rs[i]));
                    i = i + 1;
                }
                let ghost out_view = out@;
                let r = Matcher::Regex(out);
                assert forall|addr: Seq<char>|
                    spec_matches(&r, addr) == spec_matches(self, addr) by {
                    assert(r->Regex_0@ == out_view);
                    assert(self->Regex_0@ == rs@);
                    lemma_regex_lists_agree(out_view, rs@, addr);
                }
                r
            },
        }
    }
}

/// Batched attempt accounting for one worker: candidates are counted
/// locally; the shared counter receives one full batch of 8192 at each batch
/// boundary and the exact remainder at a flush point, so that what was
/// flushed always sums to exactly what was generated.
pub struct AttemptTally {
    local: u64,
    generated: Ghost<nat>,
    flushed: Ghost<nat>,
}

impl AttemptTally {
    /// Candidates counted since the last batch boundary or flush.
    pub closed spec fn local_count(&self) -> u64 {
        self.local
    }

    /// How many candidates have been counted in all.
    pub closed spec fn spec_generated(&self) -> nat {
        self.generated@
    }

    /// The sum of the amounts handed out for the shared counter so far.
    pub closed spec fn spec_flushed(&self) -> nat {
        self.flushed@
    }

    /// The accounting invariant: the flushed sum plus the pending count is
    /// exactly the generated count, and the pending count stays below one
    /// batch.
    pub open spec fn wf(&self) -> bool {
        self.spec_flushed() + self.local_count() == self.spec_generated() && self.local_count() < 8192
    }

    pub fn new() -> (t: AttemptTally)
        ensures
            t.wf(),
            t.spec_generated() == 0,
            t.spec_flushed() == 0,
            t.local_count() == 0,
    {
        AttemptTally { local: 0, generated: Ghost(0nat), flushed: Ghost(0nat) }
    }

    /// Whether the stop flag is due for a read: once every 4096 candidates.
    pub fn at_stop_check(&self) -> (b: bool)
        ensures
            b == (self.local_count() % 4096 == 0),
    {
        self.local % 4096 == 0
    }

    /// Count one generated candidate. The return value is what must be added
    /// to the shared counter now: one full batch at each batch boundary,
    /// otherwise nothing.
    pub fn record(&mut self) -> (flush: u64)
        requires
            old(self).wf(),
        ensures
            final(self).wf(),
            final(self).spec_generated() == old(self).spec_generated() + 1,
            final(self).spec_flushed() == old(self).spec_flushed() + flush,
            flush == (if old(self).local_count() + 1 == 8192 {
                8192u64
            } else {
                0u64
            }),
            final(self).local_count() == (old(self).local_count() + 1) % 8192,
    {
        self.local = self.local + 1;
        self.generated = Ghost(self.generated@ + 1);
        if self.local == 8192 {
            self.local = 0;
            self.flushed = Ghost(self.flushed@ + 8192);
            8192
        } else {
            0
        }
    }

    /// Hand out the pending remainder, so that the flushed sum catches up
    /// with the generated count exactly; done on a match and once more when
    /// the loop exits, so no attempt is ever lost.
    pub fn flush_remainder(&mut self) -> (flush: u64)
        requires
            old(self).wf(),
        ensures
            final(self).wf(),
            final(self).spec_generated() == old(self).spec_generated(),
            final(self).spec_flushed() == old(self).spec_flushed() + flush,
            flush == old(self).local_count(),
            final(self).local_count() == 0,
            final(self).spec_flushed() == final(self).spec_generated(),
    {
        let f = self.local;
        self.local = 0;
        self.flushed = Ghost(self.flushed@ + f as nat);
        f
    }
}

/// Attempt accounting: whenever nothing is pending — as right after
/// `flush_remainder` — the amounts a tally has handed out for the shared
/// counter sum to exactly the number of candidates it has counted, whatever
/// the interleaving of batch boundaries, matches and the final flush.
pub proof fn lemma_attempts_accounted(t: &AttemptTally)
    requires
        t.wf(),
        t.local_count() == 0,
    ensures
        t.spec_flushed() == t.spec_generated(),
{
}

/// Worker loop: generate a candidate keypair, encode its public key, test
/// the address, and send each match until the stop flag is observed or the
/// channel closes. The stop flag is read once every 4096 candidates; the
/// shared counter receives one batch per 8192 candidates and the exact
/// remainder on each match and at exit, so the sum of what this worker adds
/// to it equals the number of candidates it generated.
pub fn worker(
    tx: crossbeam_channel::Sender<MatchResult>,
    stop: Arc<AtomicBool>,
    attempts: Arc<AtomicU64>,
    matcher: &Matcher,
) {
    let mut rng = new_rng();
    let mut tally = AttemptTally::new();
    // The budget only bounds the loop for the termination check; no search
    // comes anywhere near generating u64::MAX candidates.
    let mut budget: u64 = u64::MAX;
    while budget > 0
        invariant
            tally.wf(),
        ensures
            tally.wf(),
        decreases budget,
    {
        budget = budget - 1;
        if tally.at_stop_check() && stop.load(Ordering::Relaxed) {
            break;
        }
        let kp = generate_keypair(&mut rng);
        let addr = onion::encode_public_key(&kp.public_key);
        let flush = tally.record();
        if flush > 0 {
            attempts.fetch_add(flush, Ordering::Relaxed);
        }
        if matcher.is_match(addr.as_str()) {
            let rem = tally.flush_remainder();
            if rem > 0 {
                attempts.fetch_add(rem, Ordering::Relaxed);
            }
            let result = MatchResult { key_pair: kp, onion_address: addr };
            if !send_result(&tx, result) {
                break;
            }
        }
    }
    let rem = tally.flush_remainder();
    if rem > 0 {
        attempts.fetch_add(rem, Ordering::Relaxed);
    }
    proof {
        lemma_attempts_accounted(&tally);
    }
}

/// Two prefix lists with equal texts accept the same addresses.
proof fn lemma_prefix_lists_agree(a: Seq<String>, b: Seq<String>, addr: Seq<char>)
    requires
        a.len() == b.len(),
        forall|k: int| 0 <= k < a.len() ==> (#[trigger] a[k])@ == b[k]@,
    ensures
        (exists|k: int| 0 <= k < a.len() && (#[trigger] a[k])@.is_prefix_of(addr)) == (exists|
            k: int,
        |
            0 <= k < b.len() && (#[trigger] b[k])@.is_prefix_of(addr)),
{
    if exists|k: int| 0 <= k < a.len() && (#[trigger] a[k])@.is_prefix_of(addr) {
        let k = choose|k: int| 0 <= k < a.len() && (#[trigger] a[k])@.is_prefix_of(addr);
        assert(b[k]@.is_prefix_of(addr));
    }
    if exists|k: int| 0 <= k < b.len() && (#[trigger] b[k])@.is_prefix_of(addr) {
        let k = choose|k: int| 0 <= k < b.len() && (#[trigger] b[k])@.is_prefix_of(addr);
        assert(a[k]@.is_prefix_of(addr));
    }
}

/// Two regex lists with equal patterns accept the same addresses.
proof fn lemma_regex_lists_agree(a: Seq<CompiledRegex>, b: Seq<CompiledRegex>, addr: Seq<char>)
    requires
        a.len() == b.len(),
        forall|k: int| 0 <= k < a.len() ==> (#[trigger] a[k]).spec_pattern() == b[k].spec_pattern(),
    ensures
        (exists|k: int| 0 <= k < a.len() && regex_matches((#[trigger] a[k]).spec_pattern(), addr))
            == (exists|k: int|
            0 <= k < b.len() && regex_matches((#[trigger] b[k]).spec_pattern(), addr)),
{
    if exists|k: int| 0 <= k < a.len() && regex_matches((#[trigger] a[k]).spec_pattern(), addr) {
        let k = choose|k: int|
            0 <= k < a.len() && regex_matches((#[trigger] a[k]).spec_pattern(), addr);
        assert(regex_matches(b[k].spec_pattern(), addr));
    }
    if exists|k: int| 0 <= k < b.len() && regex_matches((#[trigger] b[k]).spec_pattern(), addr) {
        let k = choose|k: int|
            0 <= k < b.len() && regex_matches((#[trigger] b[k]).spec_pattern(), addr);
        assert(regex_matches(a[k].spec_pattern(), addr));
    }
}

} // verus!
