//! Content digests: the cheap partial fingerprint (size, first window, last
//! window) and the streamed full hash, both BLAKE3 rendered as hex.

use vstd::prelude::*;

verus! {

/// Size of the head and tail windows of the partial fingerprint, in bytes.
pub const WINDOW: u64 = 65536;

#[verifier::external_type_specification]
#[verifier::external_body]
pub struct ExBlake3Hasher(blake3::Hasher);

/// Lowercase hex of the BLAKE3 digest of `data`.
pub uninterp spec fn blake3_hex(data: Seq<u8>) -> Seq<char>;

/// The bytes a BLAKE3 hasher has been fed, in order.
pub uninterp spec fn hasher_input(h: blake3::Hasher) -> Seq<u8>;

/// Relies on blake3::Hasher::new: a hasher that has been fed nothing.
#[verifier::external_body]
fn blake3_new() -> (h: blake3::Hasher)
    ensures
        hasher_input(h) == Seq::<u8>::empty(),
{
    blake3::Hasher::new()
}

/// Relies on blake3::Hasher::update: the input is appended to what the
/// hasher was fed.
#[verifier::external_body]
fn blake3_update(h: &mut blake3::Hasher, data: &[u8])
    ensures
        hasher_input(*final(h)) == hasher_input(*old(h)) + data@,
{
    h.update(data);
}

/// Relies on blake3::Hasher::finalize with Hash::to_hex: the digest of all
/// the bytes fed, as 64 lowercase hex digits.
#[verifier::external_body]
fn blake3_finalize_hex(h: &blake3::Hasher) -> (r: String)
    ensures
        r@ == blake3_hex(hasher_input(*h)),
        r@.len() == 64,
{
    h.finalize().to_hex().to_string()
}

/// A streaming full-content hasher.
pub struct ContentHasher {
    inner: blake3::Hasher,
}

impl View for ContentHasher {
    type V = Seq<u8>;

    /// The bytes fed so far.
    closed spec fn view(&self) -> Seq<u8> {
        hasher_input(self.inner)
    }
}

impl ContentHasher {
    /// A hasher that has been fed nothing.
    pub fn new() -> (r: ContentHasher)
        ensures
            r@ == Seq::<u8>::empty(),
    {
        ContentHasher { inner: blake3_new() }
    }

    /// Feeds the next chunk of content.
    pub fn update(&mut self, chunk: &[u8])
        ensures
            final(self)@ == old(self)@ + chunk@,
    {
        blake3_update(&mut self.inner, chunk);
    }

    /// The full hash of everything fed: 64 lowercase hex digits.
    pub fn finalize_hex(&self) -> (r: String)
        ensures
            r@ == blake3_hex(self@),
            r@.len() == 64,
    {
        blake3_finalize_hex(&self.inner)
    }
}

/// The `k` low base-256 digits of `n`, least significant first.
pub open spec fn le_digits(n: nat, k: nat) -> Seq<u8>
    decreases k,
{
    if k == 0 {
        Seq::empty()
    } else {
        seq![(n % 256) as u8] + le_digits(n / 256, (k - 1) as nat)
    }
}

/// The 8-byte little-endian encoding of `n`.
pub open spec fn le_bytes(n: u64) -> Seq<u8> {
    le_digits(n as nat, 8)
}

/// The bytes hashed for the partial fingerprint of a file of `size` bytes
/// whose first window is `head` and last window is `tail`: the size, then the
/// head, then the tail only when the file is larger than one window.
pub open spec fn fingerprint_message(size: u64, head: Seq<u8>, tail: Seq<u8>) -> Seq<u8> {
    le_bytes(size) + head + if size > WINDOW { tail } else { Seq::empty() }
}

/// The first window of a file's content (all of it when shorter).
pub open spec fn head_window(c: Seq<u8>) -> Seq<u8> {
    if c.len() <= WINDOW { c } else { c.subrange(0, WINDOW as int) }
}

/// The last window of a file's content (all of it when shorter).
pub open spec fn tail_window(c: Seq<u8>) -> Seq<u8> {
    if c.len() <= WINDOW { c } else { c.subrange(c.len() - WINDOW, c.len() as int) }
}

/// The partial fingerprint of a file whose content is `c`.
pub open spec fn partial_fingerprint_of(c: Seq<u8>) -> Seq<char> {
    blake3_hex(fingerprint_message(c.len() as u64, head_window(c), tail_window(c)))
}

/// The full hash of a file whose content is `c`.
pub open spec fn full_hash_of(c: Seq<u8>) -> Seq<char> {
    blake3_hex(c)
}

/// The 8-byte little-endian encoding of `n`.
pub fn le_u64_bytes(n: u64) -> (r: Vec<u8>)
    ensures
        r@ == le_bytes(n),
{
    let mut r: Vec<u8> = Vec::new();
    let mut x: u64 = n;
    let mut k: usize = 0;
    while k < 8
        invariant
            k <= 8,
            r@ + le_digits(x as nat, (8 - k) as nat) == le_digits(n as nat, 8),
        decreases 8 - k,
    {
        assert(le_digits(x as nat, (8 - k) as nat) =~= seq![(x % 256) as u8] + le_digits(
            (x / 256) as nat,
            (8 - k - 1) as nat,
        ));
        r.push((x % 256) as u8);
        assert(r@ + le_digits((x / 256) as nat, (8 - k - 1) as nat) =~= le_digits(n as nat, 8));
        x = x / 256;
        k = k + 1;
    }
    assert(le_digits(x as nat, 0) =~= Seq::<u8>::empty());
    assert(r@ =~= le_digits(n as nat, 8));
    r
}

/// The partial fingerprint of a file of `file_size` bytes, given its first
/// window `head` and its last window `tail`; the tail counts only when the
/// file is larger than one window.
pub fn partial_fingerprint(file_size: u64, head: &[u8], tail: &[u8]) -> (r: String)
    ensures
        r@ == blake3_hex(fingerprint_message(file_size, head@, tail@)),
        r@.len() == 64,
{
    let mut h = ContentHasher::new();
    let size_bytes = le_u64_bytes(file_size);
    h.update(size_bytes.as_slice());
    h.update(head);
    if file_size > WINDOW {
        h.update(tail);
    }
    assert(h@ =~= fingerprint_message(file_size, head@, tail@));
    h.finalize_hex()
}

/// The fingerprint reads only the size and the two windows: on a file larger
/// than two windows, changing a byte between them leaves it unchanged.
pub proof fn law_fingerprint_ignores_middle(c: Seq<u8>, p: int, b: u8)
    requires
        c.len() <= u64::MAX,
        c.len() > 2 * WINDOW,
        WINDOW <= p < c.len() - WINDOW,
    ensures
        partial_fingerprint_of(c.update(p, b)) == partial_fingerprint_of(c),
{
    let d = c.update(p, b);
    assert(head_window(d) =~= head_window(c));
    assert(tail_window(d) =~= tail_window(c));
}

/// The fingerprint reads every byte of both windows: changing one of them
/// changes the hashed message (whose digest then differs unless BLAKE3
/// collides).
pub proof fn law_fingerprint_sees_windows(c: Seq<u8>, p: int, b: u8)
    requires
        c.len() <= u64::MAX,
        0 <= p < c.len(),
        p < WINDOW || p >= c.len() - WINDOW,
        c[p] != b,
    ensures
        fingerprint_message(c.len() as u64, head_window(c), tail_window(c)) != fingerprint_message(
            c.update(p, b).len() as u64,
            head_window(c.update(p, b)),
            tail_window(c.update(p, b)),
        ),
{
    let d = c.update(p, b);
    let n = c.len() as u64;
    let m1 = fingerprint_message(n, head_window(c), tail_window(c));
    let m2 = fingerprint_message(n, head_window(d), tail_window(d));
    assert(le_bytes(n).len() == 8) by {
        reveal_with_fuel(le_digits, 9);
    }
    if p < WINDOW {
        assert(m1[8 + p] == c[p]);
        assert(m2[8 + p] == b);
    } else {
        let hl = head_window(c).len();
        let q = 8 + hl + (p - (c.len() - WINDOW));
        assert(m1[q] == c[p]);
        assert(m2[q] == b);
    }
}

} // verus!
