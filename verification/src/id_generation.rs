//! Hash-based issue identifiers.
//!
//! An identifier is `{prefix}-{hash}`, where `hash` is 4 to 6 base-36
//! characters taken from the SHA-256 digest of the issue's title,
//! description, creator, the current time and a retry nonce. The length
//! grows with the database size. Children of an issue are numbered with dot
//! notation: `{parent}.{n}`.

use sha2::Digest;
use vstd::prelude::*;

use crate::resource::{lemma_split_on_step, split_on};
use crate::text::{
    all_digits, char_is_ascii_alnum, decimal, is_ascii_alnum, lemma_decimal_digits,
    lemma_parse_decimal, owned, parse_u64_from, parse_u64_spec, push_decimal, push_str, string_of,
};

verus! {

/// Tries with distinct nonces before the length is increased.
pub const MAX_NONCE: u32 = 100;

// ---------------------------------------------------------------------------
// Base-36 encoding
// ---------------------------------------------------------------------------

/// The base-36 digit for `d < 36`: `0`-`9`, then `a`-`z`.
pub open spec fn base36_char(d: nat) -> char {
    if d < 10 {
        ((d + 48) as u8) as char
    } else {
        ((d - 10 + 97) as u8) as char
    }
}

/// The `len` least significant base-36 digits of `n`, least significant first.
pub open spec fn base36_low(n: nat, len: nat) -> Seq<char>
    decreases len,
{
    if len == 0 {
        Seq::<char>::empty()
    } else {
        seq![base36_char(n % 36)] + base36_low(n / 36, (len - 1) as nat)
    }
}

/// `n` written with exactly `len` base-36 digits, most significant first:
/// higher digits are dropped and missing ones are `0`.
pub open spec fn base36_text(n: nat, len: nat) -> Seq<char> {
    base36_low(n, len).reverse()
}

/// The bytes read as one big-endian number, keeping the low 64 bits
/// (each step shifts left by a byte, wrapping).
pub open spec fn bytes_value(bytes: Seq<u8>) -> nat
    decreases bytes.len(),
{
    if bytes.len() == 0 {
        0
    } else {
        ((bytes_value(bytes.drop_last()) * 256 + bytes.last()) % 0x1_0000_0000_0000_0000) as nat
    }
}

proof fn lemma_base36_low_len(n: nat, len: nat)
    ensures
        base36_low(n, len).len() == len,
        forall|i: int|
            0 <= i < len ==> is_ascii_alnum(#[trigger] base36_low(n, len)[i])
                && base36_low(n, len)[i] != '.',
    decreases len,
{
    if len > 0 {
        lemma_base36_low_len(n / 36, (len - 1) as nat);
        let d = n % 36;
        let c = base36_char(d);
        assert(is_ascii_alnum(c) && c != '.') by {
            if d < 10 {
                assert((d + 48) as u8 as char == c);
            } else {
                assert((d - 10 + 97) as u8 as char == c);
            }
        }
        assert forall|i: int| 0 <= i < len implies is_ascii_alnum(#[trigger] base36_low(n, len)[i])
            && base36_low(n, len)[i] != '.' by {
            if i > 0 {
                assert(base36_low(n, len)[i] == base36_low(n / 36, (len - 1) as nat)[i - 1]);
            }
        }
    }
}

/// Every character of a base-36 text is an ASCII letter or digit.
pub proof fn lemma_base36_text_alnum(n: nat, len: nat)
    ensures
        base36_text(n, len).len() == len,
        forall|i: int|
            0 <= i < len ==> is_ascii_alnum(#[trigger] base36_text(n, len)[i])
                && base36_text(n, len)[i] != '.',
{
    lemma_base36_low_len(n, len);
    let low = base36_low(n, len);
    assert forall|i: int| 0 <= i < len implies is_ascii_alnum(#[trigger] base36_text(n, len)[i])
        && base36_text(n, len)[i] != '.' by {
        assert(base36_text(n, len)[i] == low[len - 1 - i]);
    }
}

fn base36_digit(d: u64) -> (c: char)
    requires
        d < 36,
    ensures
        c == base36_char(d as nat),
{
    if d < 10 {
        ((d as u8) + 48) as char
    } else {
        ((d as u8) - 10 + 97) as char
    }
}

/// Encodes `bytes` (read big-endian, wrapping to 64 bits) as exactly
/// `length` base-36 digits; a zero length is an error.
pub fn encode_base36(bytes: &[u8], length: usize) -> (r: Result<String, String>)
    ensures
        match r {
            Ok(s) => length > 0 && s@ == base36_text(bytes_value(bytes@), length as nat),
            Err(e) => length == 0 && e@ == "Length must be greater than 0"@,
        },
{
    if length == 0 {
        return Err(crate::text::owned("Length must be greater than 0"));
    }
    let mut num: u64 = 0;
    let mut i: usize = 0;
    while i < bytes.len()
        invariant
            i <= bytes@.len(),
            num == bytes_value(bytes@.subrange(0, i as int)),
        decreases bytes.len() - i,
    {
        let b = bytes[i];
        proof {
            let p = bytes@.subrange(0, i as int + 1);
            assert(p.drop_last() =~= bytes@.subrange(0, i as int));
            assert(p.last() == b);
            let x = num;
            assert(x.wrapping_shl(8) == ((x as int * 256) % 0x1_0000_0000_0000_0000) as u64)
                by (bit_vector);
            assert((((x as int * 256) % 0x1_0000_0000_0000_0000) + b as int) == ((x as int * 256
                + b as int) % 0x1_0000_0000_0000_0000)) by (nonlinear_arith)
                requires
                    b < 256,
            {
                let q = x as int / 0x0100_0000_0000_0000;
                let rr = x as int % 0x0100_0000_0000_0000;
                assert(x as int == q * 0x0100_0000_0000_0000 + rr);
                assert(x as int * 256 == q * 0x1_0000_0000_0000_0000 + rr * 256);
                assert(rr * 256 + 255 < 0x1_0000_0000_0000_0000);
            }
        }
        num = num.wrapping_shl(8).wrapping_add(b as u64);
        i += 1;
    }
    assert(bytes@.subrange(0, bytes@.len() as int) =~= bytes@);
    let ghost total = num as nat;
    let mut low: Vec<char> = Vec::new();
    let mut n: u64 = num;
    let mut k: usize = 0;
    while k < length
        invariant
            k <= length,
            base36_low(total, length as nat) == low@ + base36_low(n as nat, (length - k) as nat),
        decreases length - k,
    {
        let c = base36_digit(n % 36);
        proof {
            assert(base36_low(n as nat, (length - k) as nat) == seq![c] + base36_low(
                (n / 36) as nat,
                (length - k - 1) as nat,
            ));
        }
        low.push(c);
        n = n / 36;
        k += 1;
        proof {
            assert(base36_low(total, length as nat) =~= low@ + base36_low(
                n as nat,
                (length - k) as nat,
            ));
        }
    }
    assert(base36_low(n as nat, 0) =~= Seq::<char>::empty());
    assert(low@ =~= base36_low(total, length as nat));
    proof {
        lemma_base36_low_len(total, length as nat);
    }
    let mut out: Vec<char> = Vec::new();
    let mut j: usize = 0;
    while j < length
        invariant
            j <= length,
            low@.len() == length,
            out@.len() == j,
            forall|t: int| 0 <= t < j ==> out@[t] == low@[length - 1 - t],
        decreases length - j,
    {
        out.push(low[length - 1 - j]);
        j += 1;
    }
    assert(out@ =~= low@.reverse());
    Ok(string_of(&out))
}

// ---------------------------------------------------------------------------
// Identifier validation
// ---------------------------------------------------------------------------

/// The hash part: 4 to 6 ASCII letters or digits.
pub open spec fn hash_part_ok(h: Seq<char>) -> bool {
    4 <= h.len() <= 6 && forall|i: int| 0 <= i < h.len() ==> is_ascii_alnum(#[trigger] h[i])
}

/// A child index: what `u32::from_str` accepts.
pub open spec fn child_part_ok(p: Seq<char>) -> bool {
    match parse_u64_spec(p) {
        Some(v) => v <= u32::MAX,
        None => false,
    }
}

/// Part `k` of the dot-separated tail is well formed.
pub open spec fn id_part_ok(k: int, p: Seq<char>) -> bool {
    if k == 0 {
        hash_part_ok(p)
    } else {
        child_part_ok(p)
    }
}

/// `{prefix}-{hash}` optionally followed by `.{n}` child indices.
pub open spec fn valid_id(id: Seq<char>, prefix: Seq<char>) -> bool {
    let head = prefix.push('-');
    &&& id.len() >= head.len()
    &&& id.subrange(0, head.len() as int) == head
    &&& forall|k: int|
        0 <= k < split_on(id.skip(head.len() as int), '.').len() ==> id_part_ok(
            k,
            #[trigger] split_on(id.skip(head.len() as int), '.')[k],
        )
}

fn hash_part_check(h: &Vec<char>) -> (b: bool)
    ensures
        b == hash_part_ok(h@),
{
    if h.len() < 4 || h.len() > 6 {
        return false;
    }
    let mut i: usize = 0;
    while i < h.len()
        invariant
            i <= h@.len(),
            forall|t: int| 0 <= t < i ==> is_ascii_alnum(#[trigger] h@[t]),
        decreases h.len() - i,
    {
        if !char_is_ascii_alnum(h[i]) {
            return false;
        }
        i += 1;
    }
    true
}

fn part_check(k: usize, p: &Vec<char>) -> (b: bool)
    ensures
        b == id_part_ok(k as int, p@),
{
    if k == 0 {
        hash_part_check(p)
    } else {
        assert(p@.subrange(0, p@.len() as int) =~= p@);
        match parse_u64_from(p, 0) {
            Some(v) => v <= 0xFFFF_FFFF,
            None => false,
        }
    }
}

/// Whether `id` is `{prefix}-{hash}` with an alphanumeric hash of 4 to 6
/// characters, followed by zero or more `.{n}` child indices that parse as
/// `u32`.
pub fn validate_id(id: &str, prefix: &str) -> (b: bool)
    ensures
        b == valid_id(id@, prefix@),
{
    let v = crate::text::chars_of(id);
    let p = crate::text::chars_of(prefix);
    let ghost head = prefix@.push('-');
    if v.len() <= p.len() {
        return false;
    }
    let mut i: usize = 0;
    while i < p.len()
        invariant
            i <= p@.len(),
            p@ == prefix@,
            v@ == id@,
            head == prefix@.push('-'),
            v@.len() >= p@.len() + 1,
            forall|t: int| 0 <= t < i ==> v@[t] == p@[t],
        decreases p.len() - i,
    {
        if v[i] != p[i] {
            assert(id@.subrange(0, head.len() as int)[i as int] != head[i as int]);
            return false;
        }
        i += 1;
    }
    if v[p.len()] != '-' {
        assert(id@.subrange(0, head.len() as int)[p.len() as int] != head[p.len() as int]);
        return false;
    }
    assert(id@.subrange(0, head.len() as int) =~= head);
    let start = p.len() + 1;
    let ghost tail = id@.skip(head.len() as int);
    let mut cur: Vec<char> = Vec::new();
    let ghost mut done: Seq<Seq<char>> = Seq::empty();
    let mut k: usize = 0;
    let mut ok = true;
    let mut j: usize = start;
    proof {
        assert(tail.subrange(0, 0) =~= Seq::<char>::empty());
        assert(done.push(cur@) =~= seq![Seq::<char>::empty()]);
    }
    while j < v.len()
        invariant
            start <= j <= v@.len(),
            start == head.len(),
            v@ == id@,
            tail == id@.skip(head.len() as int),
            tail.len() == v@.len() - start,
            k == done.len(),
            k <= j - start,
            split_on(tail.subrange(0, j - start), '.') == done.push(cur@),
            ok == (forall|t: int| 0 <= t < done.len() ==> id_part_ok(t, #[trigger] done[t])),
        decreases v.len() - j,
    {
        let ghost jj = (j - start) as int;
        proof {
            lemma_split_on_step(tail, jj, '.');
            assert(tail[jj] == v@[j as int]);
        }
        if v[j] == '.' {
            let good = part_check(k, &cur);
            proof {
                let old_done = done;
                done = done.push(cur@);
                let all_old = forall|t: int|
                    0 <= t < old_done.len() ==> id_part_ok(t, #[trigger] old_done[t]);
                let all_new = forall|t: int|
                    0 <= t < done.len() ==> id_part_ok(t, #[trigger] done[t]);
                if all_old && good {
                    assert forall|t: int| 0 <= t < done.len() implies id_part_ok(
                        t,
                        #[trigger] done[t],
                    ) by {
                        if t < old_done.len() {
                            assert(done[t] == old_done[t]);
                        }
                    }
                }
                if all_new {
                    assert forall|t: int| 0 <= t < old_done.len() implies id_part_ok(
                        t,
                        #[trigger] old_done[t],
                    ) by {
                        assert(done[t] == old_done[t]);
                    }
                    assert(done[old_done.len() as int] == cur@);
                }
                assert(all_new == (all_old && good));
            }
            ok = ok && good;
            cur = Vec::new();
            k += 1;
            proof {
                assert(done.push(cur@) =~= split_on(tail.subrange(0, jj), '.').push(
                    Seq::<char>::empty(),
                ));
            }
        } else {
            cur.push(v[j]);
            proof {
                let pp = split_on(tail.subrange(0, jj), '.');
                assert(pp.update(pp.len() - 1, pp.last().push(tail[jj])) =~= done.push(cur@));
            }
        }
        j += 1;
    }
    let good = part_check(k, &cur);
    proof {
        assert(tail.subrange(0, tail.len() as int) =~= tail);
        let parts = done.push(cur@);
        assert(split_on(tail, '.') == parts);
        if ok && good {
            assert forall|t: int| 0 <= t < parts.len() implies id_part_ok(t, #[trigger] parts[t]) by {
                if t < done.len() {
                    assert(parts[t] == done[t]);
                }
            }
        } else if !ok {
            let t = choose|t: int| 0 <= t < done.len() && !id_part_ok(t, #[trigger] done[t]);
            assert(parts[t] == done[t]);
        } else {
            assert(parts[done.len() as int] == cur@);
        }
    }
    ok && good
}

// ---------------------------------------------------------------------------
// Laws about the identifier format
// ---------------------------------------------------------------------------

/// Splitting text without separators gives the text itself.
proof fn lemma_split_no_sep(s: Seq<char>, sep: char)
    requires
        forall|i: int| 0 <= i < s.len() ==> s[i] != sep,
    ensures
        split_on(s, sep) == seq![s],
    decreases s.len(),
{
    if s.len() > 0 {
        let s0 = s.drop_last();
        assert forall|i: int| 0 <= i < s0.len() implies s0[i] != sep by {
            assert(s0[i] == s[i]);
        }
        lemma_split_no_sep(s0, sep);
        assert(s.last() == s[s.len() - 1]);
        assert(s0.push(s.last()) =~= s);
        let p = split_on(s0, sep);
        assert(split_on(s, sep) == p.update(p.len() - 1, p.last().push(s.last())));
        assert(seq![s0].update(0, s0.push(s.last())) =~= seq![s]);
    } else {
        assert(s =~= Seq::<char>::empty());
    }
}

/// Appending text without separators extends the last piece.
proof fn lemma_split_extend(x: Seq<char>, d: Seq<char>, sep: char)
    requires
        forall|i: int| 0 <= i < d.len() ==> d[i] != sep,
    ensures
        split_on(x + d, sep).len() == split_on(x, sep).len(),
        split_on(x + d, sep) == split_on(x, sep).update(
            split_on(x, sep).len() - 1,
            split_on(x, sep).last() + d,
        ),
    decreases d.len(),
{
    crate::resource::lemma_split_on_nonempty(x, sep);
    if d.len() == 0 {
        assert(x + d =~= x);
        assert(split_on(x, sep).last() + d =~= split_on(x, sep).last());
        assert(split_on(x, sep).update(split_on(x, sep).len() - 1, split_on(x, sep).last())
            =~= split_on(x, sep));
    } else {
        let d0 = d.drop_last();
        assert forall|i: int| 0 <= i < d0.len() implies d0[i] != sep by {
            assert(d0[i] == d[i]);
        }
        lemma_split_extend(x, d0, sep);
        let s = x + d;
        assert(s.drop_last() =~= x + d0);
        assert(s.last() == d.last());
        assert(d.last() == d[d.len() - 1]);
        let q = split_on(x, sep);
        let p = split_on(x + d0, sep);
        assert(p.last() == q.last() + d0);
        assert(split_on(s, sep) == p.update(p.len() - 1, p.last().push(s.last())));
        assert((q.last() + d0).push(d.last()) =~= q.last() + d);
        assert(split_on(s, sep) =~= q.update(q.len() - 1, q.last() + d));
    }
}

/// `{prefix}-{digits}` is a valid identifier when the digits are 4 to 6
/// ASCII letters or digits.
pub proof fn lemma_hash_id_valid(prefix: Seq<char>, digits: Seq<char>)
    requires
        hash_part_ok(digits),
    ensures
        valid_id(prefix.push('-') + digits, prefix),
{
    let head = prefix.push('-');
    let id = head + digits;
    assert(id.subrange(0, head.len() as int) =~= head);
    assert(id.skip(head.len() as int) =~= digits);
    assert forall|i: int| 0 <= i < digits.len() implies digits[i] != '.' by {
        assert(is_ascii_alnum(digits[i]));
    }
    lemma_split_no_sep(digits, '.');
}

/// A child `{parent}.{n}` of a valid identifier is valid.
pub proof fn lemma_child_id_valid(parent: Seq<char>, prefix: Seq<char>, n: nat)
    requires
        valid_id(parent, prefix),
        n <= u32::MAX,
    ensures
        valid_id(parent.push('.') + decimal(n), prefix),
{
    let head = prefix.push('-');
    let id = parent.push('.') + decimal(n);
    let tail0 = parent.skip(head.len() as int);
    let tail = id.skip(head.len() as int);
    assert(id.subrange(0, head.len() as int) =~= parent.subrange(0, head.len() as int));
    assert(tail =~= tail0.push('.') + decimal(n));
    lemma_decimal_digits(n);
    lemma_parse_decimal(n);
    assert forall|i: int| 0 <= i < decimal(n).len() implies decimal(n)[i] != '.' by {
        assert(all_digits(decimal(n)));
        assert(crate::text::is_ascii_digit(decimal(n)[i]));
    }
    let x = tail0.push('.');
    assert(x.drop_last() =~= tail0);
    assert(split_on(x, '.') == split_on(tail0, '.').push(Seq::<char>::empty()));
    lemma_split_extend(x, decimal(n), '.');
    let before = split_on(tail0, '.');
    let after = split_on(tail, '.');
    assert(Seq::<char>::empty() + decimal(n) =~= decimal(n));
    assert(after =~= before.push(decimal(n)));
    assert forall|k: int| 0 <= k < after.len() implies id_part_ok(k, #[trigger] after[k]) by {
        if k < before.len() {
            assert(after[k] == before[k]);
        } else {
            crate::resource::lemma_split_on_nonempty(tail0, '.');
            assert(after[k] == decimal(n));
        }
    }
}

// ---------------------------------------------------------------------------
// Generation
// ---------------------------------------------------------------------------

/// Configuration for identifier generation.
#[derive(Debug)]
pub struct IdGeneratorConfig {
    /// Prefix of every identifier (e.g. `rivets`).
    pub prefix: String,
    /// Current number of issues; it decides the hash length.
    pub database_size: usize,
}

impl Clone for IdGeneratorConfig {
    fn clone(&self) -> (r: Self)
        ensures
            r.prefix@ == self.prefix@,
            r.database_size == self.database_size,
    {
        IdGeneratorConfig { prefix: self.prefix.clone(), database_size: self.database_size }
    }
}

/// Hash length for a database of `size` issues: 4 up to 500 issues, 5 up to
/// 1,500, then 6.
pub open spec fn adaptive_length_spec(size: nat) -> nat {
    if size <= 500 {
        4
    } else if size <= 1500 {
        5
    } else {
        6
    }
}

/// `{}` of a signed integer.
pub open spec fn signed_decimal(t: int) -> Seq<char> {
    if t < 0 {
        seq!['-'] + decimal((-t) as nat)
    } else {
        decimal(t as nat)
    }
}

/// The text that is hashed: `{title}|{description}|{creator}|{timestamp}|{nonce}`.
pub open spec fn hash_input(
    title: Seq<char>,
    description: Seq<char>,
    creator: Seq<char>,
    timestamp: i64,
    nonce: u32,
) -> Seq<char> {
    title + seq!['|'] + description + seq!['|'] + creator + seq!['|'] + signed_decimal(
        timestamp as int,
    ) + seq!['|'] + decimal(nonce as nat)
}

/// The creator as it is hashed: the empty text when there is none.
pub open spec fn creator_text(creator: Option<&str>) -> Seq<char> {
    match creator {
        Some(c) => c@,
        None => Seq::<char>::empty(),
    }
}

/// The SHA-256 digest of the UTF-8 encoding of `text`.
pub uninterp spec fn sha256_digest(text: Seq<char>) -> Seq<u8>;

/// sha2's `Sha256` over the UTF-8 bytes of `text`. The result is the
/// digest [`sha256_digest`] names, and, as for every SHA-256 digest, it is
/// 32 bytes long.
#[verifier::external_body]
fn sha256_of(text: &str) -> (r: Vec<u8>)
    ensures
        r@ == sha256_digest(text@),
        r@.len() == 32,
{
    let mut hasher = sha2::Sha256::new();
    hasher.update(text.as_bytes());
    hasher.finalize().to_vec()
}

/// std's `SystemTime::now()` measured from `UNIX_EPOCH`: `Ok` with the whole
/// seconds since the epoch, or, when the clock reads earlier, `Err` with the
/// whole seconds and the nanoseconds before it. It depends on the clock, so
/// nothing is stated of it.
#[verifier::external_body]
fn system_clock() -> (r: Result<u64, (u64, u32)>) {
    match std::time::SystemTime::now().duration_since(std::time::UNIX_EPOCH) {
        Ok(d) => Ok(d.as_secs()),
        Err(e) => Err((e.duration().as_secs(), e.duration().subsec_nanos())),
    }
}

/// The Unix time in whole seconds, rounded down, of a clock reading, kept
/// within `i64`.
pub open spec fn reading_timestamp(reading: Result<u64, (u64, u32)>) -> int {
    match reading {
        Ok(s) => if s <= i64::MAX {
            s as int
        } else {
            i64::MAX as int
        },
        Err((s, n)) => {
            let t = -(s as int) - (if n > 0 {
                1int
            } else {
                0int
            });
            if t >= i64::MIN {
                t
            } else {
                i64::MIN as int
            }
        },
    }
}

/// The Unix timestamp of a clock reading (see [`reading_timestamp`]).
pub fn unix_timestamp(reading: Result<u64, (u64, u32)>) -> (t: i64)
    ensures
        t == reading_timestamp(reading),
{
    match reading {
        Ok(s) => if s <= i64::MAX as u64 {
            s as i64
        } else {
            i64::MAX
        },
        Err((s, n)) => {
            if s > i64::MAX as u64 {
                i64::MIN
            } else {
                let neg: i64 = -(s as i64);
                if n > 0 {
                    if neg == i64::MIN {
                        i64::MIN
                    } else {
                        neg - 1
                    }
                } else {
                    neg
                }
            }
        },
    }
}

/// The error when every candidate identifier is already taken.
pub open spec fn exhausted_error_text() -> Seq<char> {
    "Unable to generate unique ID after 100 attempts"@
}

/// The first nonce from `from` on, below `MAX_NONCE`, whose candidate at
/// time `t` is not yet known.
pub open spec fn first_free_nonce(
    existing: Set<Seq<char>>,
    prefix: Seq<char>,
    title: Seq<char>,
    description: Seq<char>,
    creator: Seq<char>,
    t: i64,
    length: nat,
    from: u32,
) -> Option<u32>
    decreases MAX_NONCE - from,
{
    if from >= MAX_NONCE {
        None
    } else if !existing.contains(hash_id_spec(prefix, title, description, creator, t, from, length)) {
        Some(from)
    } else {
        first_free_nonce(existing, prefix, title, description, creator, t, length, (from + 1) as u32)
    }
}

/// What generating an identifier at time `t` gives: the candidate of the
/// first free nonce at `length`; when all are taken, the nonce-0 candidate
/// one character longer if the length is below 6 and it is free; else the
/// exhaustion error.
pub open spec fn generated_at(
    existing: Set<Seq<char>>,
    prefix: Seq<char>,
    title: Seq<char>,
    description: Seq<char>,
    creator: Seq<char>,
    t: i64,
    length: nat,
) -> Result<Seq<char>, Seq<char>> {
    match first_free_nonce(existing, prefix, title, description, creator, t, length, 0) {
        Some(n) => Ok(hash_id_spec(prefix, title, description, creator, t, n, length)),
        None => {
            let longer = hash_id_spec(prefix, title, description, creator, t, 0, length + 1);
            if length < 6 && !existing.contains(longer) {
                Ok(longer)
            } else {
                Err(exhausted_error_text())
            }
        },
    }
}

/// The identifier hashed from these inputs: `{prefix}-` followed by the first
/// eight digest bytes as `length` base-36 digits.
pub open spec fn hash_id_spec(
    prefix: Seq<char>,
    title: Seq<char>,
    description: Seq<char>,
    creator: Seq<char>,
    timestamp: i64,
    nonce: u32,
    length: nat,
) -> Seq<char> {
    prefix.push('-') + base36_text(
        bytes_value(sha256_digest(hash_input(title, description, creator, timestamp, nonce)).take(8)),
        length,
    )
}

fn push_signed_decimal(out: &mut Vec<char>, t: i64)
    ensures
        final(out)@ == old(out)@ + signed_decimal(t as int),
{
    if t < 0 {
        out.push('-');
        let m: u64 = ((-(t + 1)) as u64) + 1;
        assert(m == -(t as int));
        push_decimal(out, m);
        assert(final(out)@ =~= old(out)@ + signed_decimal(t as int));
    } else {
        push_decimal(out, t as u64);
    }
}

/// Keys of the child counters are distinct.
pub open spec fn keys_distinct(v: Seq<(String, u32)>) -> bool {
    forall|i: int, j: int| 0 <= i < j < v.len() ==> #[trigger] v[i].0@ != #[trigger] v[j].0@
}

/// The counter stored for `key`, 0 when there is none.
pub open spec fn counter_in(v: Seq<(String, u32)>, key: Seq<char>) -> nat {
    if exists|i: int| 0 <= i < v.len() && #[trigger] v[i].0@ == key {
        v[choose|i: int| 0 <= i < v.len() && #[trigger] v[i].0@ == key].1 as nat
    } else {
        0
    }
}

proof fn lemma_counter_at(v: Seq<(String, u32)>, i: int)
    requires
        keys_distinct(v),
        0 <= i < v.len(),
    ensures
        counter_in(v, v[i].0@) == v[i].1,
{
    let key = v[i].0@;
    let j = choose|j: int| 0 <= j < v.len() && #[trigger] v[j].0@ == key;
    if j < i {
        assert(v[j].0@ != v[i].0@);
    } else if i < j {
        assert(v[i].0@ != v[j].0@);
    }
}

/// Hash-based identifier generator with collision detection.
#[derive(Debug)]
pub struct IdGenerator {
    config: IdGeneratorConfig,
    existing_ids: Vec<String>,
    child_counters: Vec<(String, u32)>,
}

impl IdGenerator {
    #[verifier::type_invariant]
    closed spec fn counters_keyed_once(self) -> bool {
        keys_distinct(self.child_counters@)
    }

    /// The identifier prefix.
    pub closed spec fn spec_prefix(&self) -> Seq<char> {
        self.config.prefix@
    }

    /// The configured database size.
    pub closed spec fn spec_database_size(&self) -> usize {
        self.config.database_size
    }

    /// Every identifier registered or generated so far.
    pub closed spec fn spec_existing(&self) -> Set<Seq<char>> {
        Set::new(
            |x: Seq<char>|
                exists|i: int| 0 <= i < self.existing_ids@.len() && #[trigger] self.existing_ids@[i]@ == x,
        )
    }

    /// How many children have been numbered under `parent`.
    pub closed spec fn spec_counter(&self, parent: Seq<char>) -> nat {
        counter_in(self.child_counters@, parent)
    }

    /// A generator that knows no identifiers yet.
    pub fn new(config: IdGeneratorConfig) -> (g: Self)
        ensures
            g.spec_prefix() == config.prefix@,
            g.spec_database_size() == config.database_size,
            g.spec_existing() == Set::<Seq<char>>::empty(),
            forall|p: Seq<char>| #[trigger] g.spec_counter(p) == 0,
    {
        let g = IdGenerator { config, existing_ids: Vec::new(), child_counters: Vec::new() };
        assert(g.spec_existing() =~= Set::<Seq<char>>::empty());
        g
    }

    fn contains(&self, id: &str) -> (b: bool)
        ensures
            b == self.spec_existing().contains(id@),
    {
        let mut i: usize = 0;
        while i < self.existing_ids.len()
            invariant
                i <= self.existing_ids@.len(),
                forall|t: int| 0 <= t < i ==> #[trigger] self.existing_ids@[t]@ != id@,
            decreases self.existing_ids.len() - i,
        {
            if crate::text::str_eq(self.existing_ids[i].as_str(), id) {
                assert(self.existing_ids@[i as int]@ == id@);
                return true;
            }
            i += 1;
        }
        false
    }

    /// Registers an existing identifier so that it is never generated.
    pub fn register_id(&mut self, id: String)
        ensures
            final(self).spec_prefix() == old(self).spec_prefix(),
            final(self).spec_database_size() == old(self).spec_database_size(),
            final(self).spec_existing() == old(self).spec_existing().insert(id@),
            forall|p: Seq<char>| #[trigger] final(self).spec_counter(p) == old(self).spec_counter(p),
    {
        proof {
            use_type_invariant(&*self);
        }
        if self.contains(id.as_str()) {
            assert(old(self).spec_existing().insert(id@) =~= old(self).spec_existing());
            return;
        }
        let ghost before = self.existing_ids@;
        let mut ids: Vec<String> = Vec::new();
        core::mem::swap(&mut ids, &mut self.existing_ids);
        ids.push(id);
        core::mem::swap(&mut ids, &mut self.existing_ids);
        proof {
            let after = self.existing_ids@;
            assert(after.len() == before.len() + 1);
            assert forall|x: Seq<char>| #[trigger] self.spec_existing().contains(x) == old(
                self,
            ).spec_existing().insert(id@).contains(x) by {
                if self.spec_existing().contains(x) {
                    let i = choose|i: int| 0 <= i < after.len() && #[trigger] after[i]@ == x;
                    if i < before.len() {
                        assert(after[i] == before[i]);
                    }
                }
                if old(self).spec_existing().contains(x) {
                    let i = choose|i: int| 0 <= i < before.len() && #[trigger] before[i]@ == x;
                    assert(after[i] == before[i]);
                }
                if x == id@ {
                    assert(after[before.len() as int]@ == x);
                }
            }
            assert(self.spec_existing() =~= old(self).spec_existing().insert(id@));
        }
    }

    /// The hash length for the configured database size.
    pub fn adaptive_length(&self) -> (n: usize)
        ensures
            n == adaptive_length_spec(self.spec_database_size() as nat),
    {
        if self.config.database_size <= 500 {
            4
        } else if self.config.database_size <= 1500 {
            5
        } else {
            6
        }
    }

    /// The identifier hashed from the issue's fields at `timestamp` (Unix
    /// seconds) with the given nonce and hash length.
    pub fn hash_id_at(
        &self,
        title: &str,
        description: &str,
        creator: Option<&str>,
        timestamp: i64,
        nonce: u32,
        length: usize,
    ) -> (r: Result<String, String>)
        ensures
            match r {
                Ok(id) => length > 0 && id@ == hash_id_spec(
                    self.spec_prefix(),
                    title@,
                    description@,
                    creator_text(creator),
                    timestamp,
                    nonce,
                    length as nat,
                ) && (4 <= length <= 6 ==> valid_id(id@, self.spec_prefix())),
                Err(e) => length == 0 && e@ == "Length must be greater than 0"@,
            },
    {
        let mut content: Vec<char> = Vec::new();
        push_str(&mut content, title);
        content.push('|');
        push_str(&mut content, description);
        content.push('|');
        match creator {
            Some(c) => push_str(&mut content, c),
            None => {},
        }
        content.push('|');
        push_signed_decimal(&mut content, timestamp);
        content.push('|');
        push_decimal(&mut content, nonce as u64);
        let ghost input = hash_input(title@, description@, creator_text(creator), timestamp, nonce);
        assert(content@ =~= input);
        let text = string_of(&content);
        let digest = sha256_of(text.as_str());
        let first = vstd::slice::slice_subrange(digest.as_slice(), 0, 8);
        assert(first@ =~= sha256_digest(input).take(8));
        let hash = match encode_base36(first, length) {
            Ok(h) => h,
            Err(e) => {
                return Err(e);
            },
        };
        let mut out: Vec<char> = Vec::new();
        push_str(&mut out, self.config.prefix.as_str());
        out.push('-');
        push_str(&mut out, hash.as_str());
        let ghost digits = base36_text(bytes_value(first@), length as nat);
        assert(out@ =~= self.spec_prefix().push('-') + digits);
        proof {
            if 4 <= length <= 6 {
                lemma_base36_text_alnum(bytes_value(first@), length as nat);
                lemma_hash_id_valid(self.spec_prefix(), digits);
            }
        }
        Ok(string_of(&out))
    }

    fn find_counter(&self, parent: &str) -> (r: Option<usize>)
        ensures
            match r {
                Some(i) => i < self.child_counters@.len() && self.child_counters@[i as int].0@
                    == parent@,
                None => forall|i: int|
                    0 <= i < self.child_counters@.len() ==> #[trigger] self.child_counters@[i].0@
                        != parent@,
            },
    {
        let mut i: usize = 0;
        while i < self.child_counters.len()
            invariant
                i <= self.child_counters@.len(),
                forall|t: int| 0 <= t < i ==> #[trigger] self.child_counters@[t].0@ != parent@,
            decreases self.child_counters.len() - i,
        {
            if crate::text::str_eq(self.child_counters[i].0.as_str(), parent) {
                return Some(i);
            }
            i += 1;
        }
        None
    }

    /// Numbers the next child of `parent_id`: `{parent}.{n}`.
    fn generate_hierarchical_id(&mut self, parent_id: &str) -> (id: String)
        requires
            old(self).spec_counter(parent_id@) < u32::MAX,
        ensures
            id@ == parent_id@.push('.') + decimal(old(self).spec_counter(parent_id@) + 1),
            final(self).spec_prefix() == old(self).spec_prefix(),
            final(self).spec_database_size() == old(self).spec_database_size(),
            final(self).spec_existing() == old(self).spec_existing().insert(id@),
            final(self).spec_counter(parent_id@) == old(self).spec_counter(parent_id@) + 1,
            forall|p: Seq<char>|
                p != parent_id@ ==> #[trigger] final(self).spec_counter(p) == old(self).spec_counter(
                    p,
                ),
    {
        proof {
            use_type_invariant(&*self);
        }
        let ghost before = self.child_counters@;
        let found = self.find_counter(parent_id);
        let n: u32 = match found {
            Some(i) => {
                proof {
                    lemma_counter_at(before, i as int);
                }
                self.child_counters[i].1 + 1
            },
            None => {
                assert(!(exists|i: int| 0 <= i < before.len() && #[trigger] before[i].0@ == parent_id@));
                1
            },
        };
        let mut counters: Vec<(String, u32)> = Vec::new();
        core::mem::swap(&mut counters, &mut self.child_counters);
        match found {
            Some(i) => {
                let key = counters[i].0.clone();
                counters.set(i, (key, n));
            },
            None => {
                counters.push((crate::text::owned(parent_id), n));
            },
        }
        let ghost after = counters@;
        proof {
            assert forall|a: int, b: int| 0 <= a < b < after.len() implies #[trigger] after[a].0@
                != #[trigger] after[b].0@ by {
                if b < before.len() {
                    assert(after[a].0@ == before[a].0@);
                    assert(after[b].0@ == before[b].0@);
                } else {
                    assert(after[a] == before[a]);
                }
            }
            let k = match found {
                Some(i) => i as int,
                None => before.len() as int,
            };
            assert(after[k].0@ == parent_id@ && after[k].1 == n);
            lemma_counter_at(after, k);
            assert forall|p: Seq<char>| p != parent_id@ implies #[trigger] counter_in(after, p)
                == counter_in(before, p) by {
                if exists|j: int| 0 <= j < after.len() && #[trigger] after[j].0@ == p {
                    let j = choose|j: int| 0 <= j < after.len() && #[trigger] after[j].0@ == p;
                    assert(j != k);
                    assert(after[j] == before[j]);
                    lemma_counter_at(after, j);
                    lemma_counter_at(before, j);
                } else {
                    assert forall|j: int| 0 <= j < before.len() implies #[trigger] before[j].0@
                        != p by {
                        if j != k {
                            assert(after[j] == before[j]);
                        }
                    }
                }
            }
        }
        core::mem::swap(&mut counters, &mut self.child_counters);
        let mut text: Vec<char> = Vec::new();
        push_str(&mut text, parent_id);
        text.push('.');
        push_decimal(&mut text, n as u64);
        let id = string_of(&text);
        assert(id@ =~= parent_id@.push('.') + decimal(old(self).spec_counter(parent_id@) + 1));
        self.register_id(id.clone());
        id
    }

    /// Generates a new identifier.
    ///
    /// With a parent, the result is the parent's next child `{parent}.{n}`.
    /// Otherwise up to `MAX_NONCE` nonces are tried at the adaptive length
    /// and the first identifier not yet known is taken; when all collide, one
    /// identifier one character longer is taken (if the length is below 6),
    /// else generation fails.
    pub fn generate(
        &mut self,
        title: &str,
        description: &str,
        creator: Option<&str>,
        parent_id: Option<&str>,
    ) -> (r: Result<String, String>)
        requires
            match parent_id {
                Some(p) => old(self).spec_counter(p@) < u32::MAX,
                None => true,
            },
        ensures
            final(self).spec_prefix() == old(self).spec_prefix(),
            final(self).spec_database_size() == old(self).spec_database_size(),
            match r {
                Ok(id) => final(self).spec_existing() == old(self).spec_existing().insert(id@),
                Err(_) => final(self).spec_existing() == old(self).spec_existing(),
            },
            match parent_id {
                Some(p) => {
                    &&& r is Ok
                    &&& r->Ok_0@ == p@.push('.') + decimal(old(self).spec_counter(p@) + 1)
                    &&& final(self).spec_counter(p@) == old(self).spec_counter(p@) + 1
                    &&& forall|q: Seq<char>|
                        q != p@ ==> #[trigger] final(self).spec_counter(q) == old(
                            self,
                        ).spec_counter(q)
                    &&& (valid_id(p@, old(self).spec_prefix()) ==> valid_id(
                        r->Ok_0@,
                        old(self).spec_prefix(),
                    ))
                },
                None => {
                    &&& forall|q: Seq<char>| #[trigger]
                        final(self).spec_counter(q) == old(self).spec_counter(q)
                    &&& (r matches Ok(id) ==> valid_id(id@, old(self).spec_prefix()))
                    &&& exists|t: i64|
                        match r {
                            Ok(id) => #[trigger] generated_at(
                                old(self).spec_existing(),
                                old(self).spec_prefix(),
                                title@,
                                description@,
                                creator_text(creator),
                                t,
                                adaptive_length_spec(old(self).spec_database_size() as nat),
                            ) == Ok::<Seq<char>, Seq<char>>(id@),
                            Err(e) => generated_at(
                                old(self).spec_existing(),
                                old(self).spec_prefix(),
                                title@,
                                description@,
                                creator_text(creator),
                                t,
                                adaptive_length_spec(old(self).spec_database_size() as nat),
                            ) == Err::<Seq<char>, Seq<char>>(e@),
                        }
                },
            },
    {
        if let Some(parent) = parent_id {
            let id = self.generate_hierarchical_id(parent);
            proof {
                if valid_id(parent@, old(self).spec_prefix()) {
                    lemma_child_id_valid(
                        parent@,
                        old(self).spec_prefix(),
                        old(self).spec_counter(parent@) + 1,
                    );
                }
            }
            return Ok(id);
        }
        let now = unix_timestamp(system_clock());
        self.generate_at(title, description, creator, now)
    }

    /// Generates a hash identifier at Unix time `now`: up to `MAX_NONCE`
    /// nonces are tried at the adaptive length and the first identifier not
    /// yet known is taken; when all collide, the identifier one character
    /// longer is taken if the length is below 6 and it is not yet known;
    /// else generation fails.
    pub fn generate_at(&mut self, title: &str, description: &str, creator: Option<&str>, now: i64) -> (r:
        Result<String, String>)
        ensures
            final(self).spec_prefix() == old(self).spec_prefix(),
            final(self).spec_database_size() == old(self).spec_database_size(),
            forall|q: Seq<char>| #[trigger] final(self).spec_counter(q) == old(self).spec_counter(q),
            match r {
                Ok(id) => {
                    &&& generated_at(
                        old(self).spec_existing(),
                        old(self).spec_prefix(),
                        title@,
                        description@,
                        creator_text(creator),
                        now,
                        adaptive_length_spec(old(self).spec_database_size() as nat),
                    ) == Ok::<Seq<char>, Seq<char>>(id@)
                    &&& valid_id(id@, old(self).spec_prefix())
                    &&& final(self).spec_existing() == old(self).spec_existing().insert(id@)
                },
                Err(e) => {
                    &&& generated_at(
                        old(self).spec_existing(),
                        old(self).spec_prefix(),
                        title@,
                        description@,
                        creator_text(creator),
                        now,
                        adaptive_length_spec(old(self).spec_database_size() as nat),
                    ) == Err::<Seq<char>, Seq<char>>(e@)
                    &&& final(self).spec_existing() == old(self).spec_existing()
                },
            },
    {
        let id_length = self.adaptive_length();
        let ghost existing = old(self).spec_existing();
        let ghost prefix = old(self).spec_prefix();
        let ghost c = creator_text(creator);
        let ghost len = id_length as nat;
        let mut nonce: u32 = 0;
        while nonce < MAX_NONCE
            invariant
                nonce <= MAX_NONCE,
                4 <= id_length <= 6,
                len == id_length as nat,
                id_length == adaptive_length_spec(old(self).spec_database_size() as nat),
                existing == old(self).spec_existing(),
                prefix == old(self).spec_prefix(),
                c == creator_text(creator),
                self.spec_prefix() == old(self).spec_prefix(),
                self.spec_database_size() == old(self).spec_database_size(),
                self.spec_existing() == old(self).spec_existing(),
                forall|q: Seq<char>| #[trigger] self.spec_counter(q) == old(self).spec_counter(q),
                first_free_nonce(existing, prefix, title@, description@, c, now, len, 0)
                    == first_free_nonce(existing, prefix, title@, description@, c, now, len, nonce),
            decreases MAX_NONCE - nonce,
        {
            let id = match self.hash_id_at(title, description, creator, now, nonce, id_length) {
                Ok(id) => id,
                Err(e) => {
                    return Err(e);
                },
            };
            if !self.contains(id.as_str()) {
                self.register_id(id.clone());
                return Ok(id);
            }
            nonce += 1;
        }
        if id_length < 6 {
            let longer = match self.hash_id_at(title, description, creator, now, 0, id_length + 1) {
                Ok(id) => id,
                Err(e) => {
                    return Err(e);
                },
            };
            if !self.contains(longer.as_str()) {
                self.register_id(longer.clone());
                return Ok(longer);
            }
        }
        Err(owned("Unable to generate unique ID after 100 attempts"))
    }
}

} // verus!
