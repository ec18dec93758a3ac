//! Replay protection: a bounded ring buffer of recently seen idempotency
//! fingerprints per subscription.
//!
//! Three entrypoints accept idempotency keys (interval charges, deposits and
//! one-off charges). Each scopes the raw key with its own domain constant
//! before hashing, so reusing one raw key across entrypoints never collides.
use crate::host::{sha256_digest, sha256_of};
use vstd::prelude::*;

verus! {

/// Number of fingerprints remembered per subscription.
pub const IDEM_HISTORY: u32 = 32;

/// Domain constant of the interval-charge entrypoint.
pub const DOMAIN_CHARGE: u32 = 1;

/// Domain constant of the deposit entrypoint.
pub const DOMAIN_DEPOSIT: u32 = 2;

/// Domain constant of the one-off-charge entrypoint.
pub const DOMAIN_ONE_OFF: u32 = 3;

/// The big-endian bytes of a `u32`.
pub open spec fn be_u32(x: u32) -> Seq<u8> {
    seq![
        (x / 0x100_0000) as u8,
        ((x / 0x1_0000) % 0x100) as u8,
        ((x / 0x100) % 0x100) as u8,
        (x % 0x100) as u8,
    ]
}

/// The bytes that are hashed into a fingerprint: domain, subscription id
/// (both big-endian) and the raw key.
pub open spec fn idem_preimage(domain: u32, subscription_id: u32, raw: Seq<u8>) -> Seq<u8> {
    be_u32(domain) + be_u32(subscription_id) + raw
}

/// The fingerprint of a raw key in a domain for a subscription.
pub open spec fn idem_fingerprint(domain: u32, subscription_id: u32, raw: Seq<u8>) -> Seq<u8> {
    sha256_of(idem_preimage(domain, subscription_id, raw))
}

/// Distinct numbers have distinct big-endian encodings.
pub proof fn lemma_be_u32_injective(x: u32, y: u32)
    requires
        be_u32(x) == be_u32(y),
    ensures
        x == y,
{
    assert(be_u32(x)[0] == be_u32(y)[0]);
    assert(be_u32(x)[1] == be_u32(y)[1]);
    assert(be_u32(x)[2] == be_u32(y)[2]);
    assert(be_u32(x)[3] == be_u32(y)[3]);
    assert(x == (x / 0x100_0000) * 0x100_0000 + ((x / 0x1_0000) % 0x100) * 0x1_0000 + ((x / 0x100)
        % 0x100) * 0x100 + x % 0x100) by (nonlinear_arith);
    assert(y == (y / 0x100_0000) * 0x100_0000 + ((y / 0x1_0000) % 0x100) * 0x1_0000 + ((y / 0x100)
        % 0x100) * 0x100 + y % 0x100) by (nonlinear_arith);
}

/// Two fingerprint requests hash the same bytes only when domain,
/// subscription and raw key all agree: the scoping never merges two
/// distinct requests before hashing.
pub proof fn lemma_preimage_injective(
    d1: u32,
    s1: u32,
    k1: Seq<u8>,
    d2: u32,
    s2: u32,
    k2: Seq<u8>,
)
    requires
        idem_preimage(d1, s1, k1) == idem_preimage(d2, s2, k2),
    ensures
        d1 == d2,
        s1 == s2,
        k1 == k2,
{
    let p1 = idem_preimage(d1, s1, k1);
    let p2 = idem_preimage(d2, s2, k2);
    assert(be_u32(d1) == p1.subrange(0, 4));
    assert(be_u32(d2) == p2.subrange(0, 4));
    assert(be_u32(s1) == p1.subrange(4, 8));
    assert(be_u32(s2) == p2.subrange(4, 8));
    assert(k1 == p1.subrange(8, p1.len() as int));
    assert(k2 == p2.subrange(8, p2.len() as int));
    lemma_be_u32_injective(d1, d2);
    lemma_be_u32_injective(s1, s2);
}

/// Appends the big-endian bytes of `x` to `buf`.
fn push_be_u32(buf: &mut Vec<u8>, x: u32)
    ensures
        final(buf)@ == old(buf)@ + be_u32(x),
{
    buf.push((x / 0x100_0000) as u8);
    buf.push(((x / 0x1_0000) % 0x100) as u8);
    buf.push(((x / 0x100) % 0x100) as u8);
    buf.push((x % 0x100) as u8);
}

/// Hashes (domain, subscription_id, raw_key) into a 32-byte fingerprint.
pub fn hash_idem_key(
    env: &soroban_sdk::Env,
    domain: u32,
    subscription_id: u32,
    raw_key: &[u8; 32],
) -> (fingerprint: [u8; 32])
    ensures
        fingerprint@ == idem_fingerprint(domain, subscription_id, raw_key@),
{
    let mut buf: Vec<u8> = Vec::new();
    push_be_u32(&mut buf, domain);
    push_be_u32(&mut buf, subscription_id);
    let mut i: usize = 0;
    while i < 32
        invariant
            0 <= i <= 32,
            buf@ == be_u32(domain) + be_u32(subscription_id) + raw_key@.subrange(0, i as int),
        decreases 32 - i,
    {
        buf.push(raw_key[i]);
        i = i + 1;
        assert(raw_key@.subrange(0, i as int) == raw_key@.subrange(0, i - 1).push(raw_key@[i - 1]));
    }
    assert(raw_key@.subrange(0, 32) == raw_key@);
    sha256_digest(env, buf.as_slice())
}

/// The remembered fingerprints of one subscription. While fewer than
/// `IDEM_HISTORY` are stored new ones are appended; after that the slot at
/// `cursor`, the oldest, is overwritten.
#[derive(Debug)]
pub struct IdemRingBuffer {
    pub entries: Vec<[u8; 32]>,
    pub cursor: u32,
}

impl IdemRingBuffer {
    /// The fingerprints as byte strings, in slot order.
    pub open spec fn keys(&self) -> Seq<Seq<u8>> {
        self.entries@.map_values(|e: [u8; 32]| e@)
    }

    /// A buffer that the push operation keeps consistent: never more than
    /// `IDEM_HISTORY` entries, the cursor inside the window, and, until the
    /// window is full, the cursor at the first free slot.
    pub open spec fn wf(&self) -> bool {
        window_wf(self.entries@, self.cursor)
    }

    /// The empty buffer, used when a subscription has never stored a key.
    pub fn new() -> (buf: Self)
        ensures
            buf.entries@.len() == 0,
            buf.cursor == 0,
            buf.wf(),
    {
        IdemRingBuffer { entries: Vec::new(), cursor: 0 }
    }
}

/// The entries after pushing `hashed`: appended while the window has room,
/// otherwise written over the slot at the cursor.
pub open spec fn pushed_entries(entries: Seq<[u8; 32]>, cursor: u32, hashed: [u8; 32]) -> Seq<[u8; 32]> {
    if entries.len() < IDEM_HISTORY {
        entries.push(hashed)
    } else {
        let idx = cursor % IDEM_HISTORY;
        if idx < entries.len() {
            entries.update(idx as int, hashed)
        } else {
            entries.push(hashed)
        }
    }
}

/// The cursor after a push.
pub open spec fn pushed_cursor(cursor: u32) -> u32 {
    (cursor.wrapping_add(1) % IDEM_HISTORY) as u32
}

/// Whether two fingerprints hold the same bytes.
fn same_digest(a: &[u8; 32], b: &[u8; 32]) -> (same: bool)
    ensures
        same == (a@ == b@),
{
    let mut i: usize = 0;
    while i < 32
        invariant
            0 <= i <= 32,
            forall|j: int| 0 <= j < i ==> a@[j] == b@[j],
        decreases 32 - i,
    {
        if a[i] != b[i] {
            return false;
        }
        i = i + 1;
    }
    assert(a@ =~= b@);
    true
}

/// Whether `hashed` is already remembered (a replay).
pub fn check_key(buf: &IdemRingBuffer, hashed: &[u8; 32]) -> (replay: bool)
    ensures
        replay == buf.keys().contains(hashed@),
{
    let n = buf.entries.len();
    let mut i: usize = 0;
    while i < n
        invariant
            n == buf.entries@.len(),
            0 <= i <= n,
            forall|j: int| 0 <= j < i ==> buf.entries@[j]@ != hashed@,
        decreases n - i,
    {
        if same_digest(&buf.entries[i], hashed) {
            assert(buf.keys()[i as int] == hashed@);
            return true;
        }
        i = i + 1;
    }
    proof {
        if buf.keys().contains(hashed@) {
            let j = choose|j: int| 0 <= j < buf.keys().len() && buf.keys()[j] == hashed@;
            assert(buf.entries@[j]@ == hashed@);
        }
    }
    false
}

/// Remembers `hashed`, overwriting the oldest entry once the window is full.
pub fn push_key(buf: &mut IdemRingBuffer, hashed: &[u8; 32])
    ensures
        final(buf).entries@ == pushed_entries(old(buf).entries@, old(buf).cursor, *hashed),
        final(buf).cursor == pushed_cursor(old(buf).cursor),
        old(buf).wf() ==> final(buf).wf(),
{
    if buf.entries.len() < IDEM_HISTORY as usize {
        buf.entries.push(*hashed);
    } else {
        let idx = buf.cursor as usize % IDEM_HISTORY as usize;
        if idx < buf.entries.len() {
            buf.entries.set(idx, *hashed);
        } else {
            buf.entries.push(*hashed);
        }
    }
    buf.cursor = buf.cursor.wrapping_add(1) % IDEM_HISTORY;
}

/// A window of remembered fingerprints together with its cursor.
pub open spec fn window_wf(entries: Seq<[u8; 32]>, cursor: u32) -> bool {
    &&& entries.len() <= IDEM_HISTORY
    &&& cursor < IDEM_HISTORY
    &&& entries.len() < IDEM_HISTORY ==> cursor == entries.len()
}

/// The window after pushing each of `keys` in turn.
pub open spec fn push_all(entries: Seq<[u8; 32]>, cursor: u32, keys: Seq<[u8; 32]>) -> (Seq<[u8; 32]>, u32)
    decreases keys.len(),
{
    if keys.len() == 0 {
        (entries, cursor)
    } else {
        push_all(pushed_entries(entries, cursor, keys[0]), pushed_cursor(cursor), keys.drop_first())
    }
}

/// Pushing keeps a window consistent.
pub proof fn lemma_push_keeps_wf(entries: Seq<[u8; 32]>, cursor: u32, hashed: [u8; 32])
    requires
        window_wf(entries, cursor),
    ensures
        window_wf(pushed_entries(entries, cursor, hashed), pushed_cursor(cursor)),
{
}

/// A key that was just pushed is found by the replay check.
pub proof fn lemma_pushed_key_is_replay(buf: IdemRingBuffer, hashed: [u8; 32])
    ensures
        pushed_entries(buf.entries@, buf.cursor, hashed).map_values(|e: [u8; 32]| e@).contains(
            hashed@,
        ),
{
    let e = pushed_entries(buf.entries@, buf.cursor, hashed);
    let ks = e.map_values(|x: [u8; 32]| x@);
    if buf.entries@.len() < IDEM_HISTORY || buf.cursor % IDEM_HISTORY >= buf.entries@.len() {
        assert(ks[e.len() - 1] == hashed@);
    } else {
        assert(ks[(buf.cursor % IDEM_HISTORY) as int] == hashed@);
    }
}

/// The slot at index `p` is not written by the next `d` pushes, where `d`
/// is the distance from the cursor forward to `p` around the window.
proof fn lemma_slot_untouched(entries: Seq<[u8; 32]>, cursor: u32, keys: Seq<[u8; 32]>, p: int)
    requires
        window_wf(entries, cursor),
        0 <= p < entries.len(),
        keys.len() <= (p - cursor) % (IDEM_HISTORY as int),
    ensures
        window_wf(push_all(entries, cursor, keys).0, push_all(entries, cursor, keys).1),
        p < push_all(entries, cursor, keys).0.len(),
        push_all(entries, cursor, keys).0[p] == entries[p],
    decreases keys.len(),
{
    if keys.len() > 0 {
        let e2 = pushed_entries(entries, cursor, keys[0]);
        let c2 = pushed_cursor(cursor);
        assert(cursor != p);
        assert(c2 == (cursor + 1) % 32);
        assert((p - c2) % 32 == (p - cursor) % 32 - 1);
        lemma_push_keeps_wf(entries, cursor, keys[0]);
        lemma_slot_untouched(e2, c2, keys.drop_first(), p);
    }
}

/// A key stays remembered while fewer than `IDEM_HISTORY` further keys are
/// pushed after it: only the oldest slot is ever overwritten.
pub proof fn lemma_recent_key_retained(
    entries: Seq<[u8; 32]>,
    cursor: u32,
    hashed: [u8; 32],
    later: Seq<[u8; 32]>,
)
    requires
        window_wf(entries, cursor),
        later.len() < IDEM_HISTORY,
    ensures
        push_all(pushed_entries(entries, cursor, hashed), pushed_cursor(cursor), later).0.contains(
            hashed,
        ),
{
    let e2 = pushed_entries(entries, cursor, hashed);
    let c2 = pushed_cursor(cursor);
    lemma_push_keeps_wf(entries, cursor, hashed);
    let p: int = if entries.len() < IDEM_HISTORY { entries.len() as int } else { cursor as int };
    assert(e2[p] == hashed);
    assert(c2 == (cursor + 1) % 32);
    assert((p - c2) % 32 == 31);
    lemma_slot_untouched(e2, c2, later, p);
    let fin = push_all(e2, c2, later).0;
    assert(fin[p] == hashed);
}

/// Pushing one more key after a sequence of keys is the same as pushing
/// the longer sequence.
proof fn lemma_push_all_snoc(entries: Seq<[u8; 32]>, cursor: u32, keys: Seq<[u8; 32]>, h: [u8; 32])
    ensures
        push_all(entries, cursor, keys.push(h)) == (
            pushed_entries(push_all(entries, cursor, keys).0, push_all(entries, cursor, keys).1, h),
            pushed_cursor(push_all(entries, cursor, keys).1),
        ),
    decreases keys.len(),
{
    let pe = pushed_entries(entries, cursor, keys.push(h)[0]);
    let pc = pushed_cursor(cursor);
    if keys.len() == 0 {
        assert(keys.push(h).drop_first() =~= Seq::<[u8; 32]>::empty());
        assert(push_all(pe, pc, Seq::<[u8; 32]>::empty()) == (pe, pc));
        assert(push_all(entries, cursor, keys) == (entries, cursor));
    } else {
        assert(keys.push(h)[0] == keys[0]);
        assert(keys.push(h).drop_first() =~= keys.drop_first().push(h));
        lemma_push_all_snoc(pe, pc, keys.drop_first(), h);
        assert(push_all(entries, cursor, keys) == push_all(pe, pc, keys.drop_first()));
    }
}

/// The buffer filled from empty by the keys `hs`: while fewer than
/// `IDEM_HISTORY` keys were pushed it holds them in order; after that the
/// cursor is the push count modulo the window and slot `j` holds the most
/// recent key pushed at a position congruent to `j`.
pub open spec fn history_window(entries: Seq<[u8; 32]>, cursor: u32, hs: Seq<[u8; 32]>) -> bool {
    let n = hs.len() as int;
    if n < IDEM_HISTORY {
        entries == hs && cursor == n
    } else {
        &&& entries.len() == IDEM_HISTORY
        &&& cursor == n % (IDEM_HISTORY as int)
        &&& forall|j: int| 0 <= j < IDEM_HISTORY ==> #[trigger] entries[j]
            == hs[n - (IDEM_HISTORY as int) + (j - cursor + (IDEM_HISTORY as int)) % (IDEM_HISTORY as int)]
    }
}

/// Pushing `hs` into an empty buffer gives its history window.
proof fn lemma_history_window(hs: Seq<[u8; 32]>)
    ensures
        history_window(push_all(Seq::empty(), 0, hs).0, push_all(Seq::empty(), 0, hs).1, hs),
    decreases hs.len(),
{
    if hs.len() > 0 {
        let init = hs.drop_last();
        let h = hs.last();
        assert(init.push(h) =~= hs);
        lemma_history_window(init);
        lemma_push_all_snoc(Seq::empty(), 0, init, h);
        let e = push_all(Seq::<[u8; 32]>::empty(), 0, init).0;
        let c = push_all(Seq::<[u8; 32]>::empty(), 0, init).1;
        let n = init.len() as int;
        let e2 = pushed_entries(e, c, h);
        let c2 = pushed_cursor(c);
        assert(push_all(Seq::<[u8; 32]>::empty(), 0, hs) == (e2, c2));
        assert(history_window(e, c, init));
        if n < 31 {
            assert(e == init && c == n);
            assert(e2 =~= hs);
            assert(c2 == n + 1);
            assert(history_window(e2, c2, hs));
        } else if n == 31 {
            assert(e == init && c == n);
            assert(e2 =~= hs);
            assert(e2.len() == 32);
            assert(c2 == 0);
            assert forall|j: int| 0 <= j < 32 implies #[trigger] e2[j] == hs[32 - 32 + (j - c2 + 32) % 32] by {
                assert((j - 0 + 32) % 32 == j);
            }
            assert(history_window(e2, c2, hs));
        } else {
            assert(e.len() == 32);
            assert(c == n % 32);
            assert(c < 32);
            assert(c2 == (c + 1) % 32);
            assert(c2 == (n + 1) % 32);
            assert(e2 == e.update(c as int, h));
            assert forall|j: int| 0 <= j < 32 implies #[trigger] e2[j] == hs[(n + 1) - 32 + (j - c2 + 32) % 32] by {
                if j == c {
                    assert((j - c2 + 32) % 32 == 31);
                } else {
                    assert(e2[j] == e[j]);
                    assert(e[j] == init[n - 32 + (j - c + 32) % 32]);
                    assert((j - c + 32) % 32 == (j - c2 + 32) % 32 + 1);
                    assert(init[n - 32 + (j - c + 32) % 32] == hs[n - 32 + (j - c + 32) % 32]);
                }
            }
            assert(history_window(e2, c2, hs));
        }
    } else {
        assert(hs =~= Seq::<[u8; 32]>::empty());
        assert(push_all(Seq::<[u8; 32]>::empty(), 0, hs) == (Seq::<[u8; 32]>::empty(), 0u32));
    }
}

/// The first position of the replay window over `n` pushed keys: the last
/// `IDEM_HISTORY` of them (all of them while fewer were pushed).
pub open spec fn window_start(n: nat) -> int {
    if n <= IDEM_HISTORY {
        0
    } else {
        n - IDEM_HISTORY
    }
}

/// The replay window: for a buffer filled from empty by the keys `hs` (in
/// push order), the replay check finds a fingerprint exactly when it is
/// among the last `min(hs.len(), IDEM_HISTORY)` keys pushed; with nothing
/// pushed it finds nothing.
pub proof fn lemma_replay_window(buf: IdemRingBuffer, hs: Seq<[u8; 32]>, hashed: [u8; 32])
    requires
        buf.entries@ == push_all(Seq::empty(), 0, hs).0,
        buf.cursor == push_all(Seq::empty(), 0, hs).1,
    ensures
        buf.keys().contains(hashed@) <==> exists|k: int|
            window_start(hs.len()) <= k < hs.len() && #[trigger] hs[k]@ == hashed@,
{
    lemma_history_window(hs);
    let e = buf.entries@;
    let c = buf.cursor as int;
    let n = hs.len() as int;
    if buf.keys().contains(hashed@) {
        let j = choose|j: int| 0 <= j < buf.keys().len() && buf.keys()[j] == hashed@;
        assert(e[j]@ == hashed@);
        if n < 32 {
            assert(hs[j]@ == hashed@);
        } else {
            let k = n - 32 + (j - c + 32) % 32;
            assert(e[j] == hs[k]);
            assert(hs[k]@ == hashed@);
        }
    }
    if exists|k: int| window_start(hs.len()) <= k < hs.len() && #[trigger] hs[k]@ == hashed@ {
        let k = choose|k: int| window_start(hs.len()) <= k < hs.len() && #[trigger] hs[k]@ == hashed@;
        if n < 32 {
            assert(buf.keys()[k] == e[k]@);
        } else {
            let m = k - (n - 32);
            let j = if c + m < 32 { c + m } else { c + m - 32 };
            assert((j - c + 32) % 32 == m);
            assert(e[j] == hs[k]);
            assert(buf.keys()[j] == e[j]@);
        }
    }
}

} // verus!
