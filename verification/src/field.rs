//! The base field of the Pallas curve, by its canonical encoding in
//! thirty-two bytes, lowest byte first.

use ff::PrimeField;
use vstd::arithmetic::power::pow;
use vstd::prelude::*;

verus! {

/// The number that some bytes encode, lowest byte first.
pub open spec fn le_value(bytes: Seq<u8>) -> nat
    decreases bytes.len(),
{
    if bytes.len() == 0 {
        0
    } else {
        bytes[0] as nat + 256 * le_value(bytes.skip(1))
    }
}

/// The number of elements of the field.
pub open spec fn modulus() -> nat {
    0x40000000000000000000000000000000224698fc094cf91b992d30ed00000001nat
}

/// Byte strings of one length that encode the same number are the same.
pub proof fn le_value_injective(a: Seq<u8>, b: Seq<u8>)
    requires
        a.len() == b.len(),
        le_value(a) == le_value(b),
    ensures
        a == b,
    decreases a.len(),
{
    if a.len() > 0 {
        assert(a[0] == b[0] && le_value(a.skip(1)) == le_value(b.skip(1)));
        le_value_injective(a.skip(1), b.skip(1));
        assert(a =~= seq![a[0]] + a.skip(1));
        assert(b =~= seq![b[0]] + b.skip(1));
    } else {
        assert(a =~= b);
    }
}

/// A number in so many bytes, lowest byte first.
pub open spec fn le_bytes(n: nat, count: nat) -> Seq<u8>
    decreases count,
{
    if count == 0 {
        Seq::empty()
    } else {
        seq![(n % 256) as u8] + le_bytes(n / 256, (count - 1) as nat)
    }
}

/// Writing the number that some bytes encode gives the bytes back.
pub proof fn le_bytes_of_value(bytes: Seq<u8>)
    ensures
        le_bytes(le_value(bytes), bytes.len()) == bytes,
    decreases bytes.len(),
{
    if bytes.len() > 0 {
        let n = le_value(bytes);
        assert(n % 256 == bytes[0] as nat && n / 256 == le_value(bytes.skip(1)));
        le_bytes_of_value(bytes.skip(1));
        assert(bytes =~= seq![bytes[0]] + bytes.skip(1));
    } else {
        assert(bytes =~= Seq::empty());
    }
}

/// Reading a number from its bytes gives it back, where they are enough.
pub proof fn le_value_of_bytes(n: nat, count: nat)
    requires
        n < pow(256, count),
    ensures
        le_bytes(n, count).len() == count,
        le_value(le_bytes(n, count)) == n,
    decreases count,
{
    if count == 0 {
        vstd::arithmetic::power::lemma_pow0(256);
    } else {
        let rest = (count - 1) as nat;
        vstd::arithmetic::power::lemma_pow_adds(256, 1, rest);
        vstd::arithmetic::power::lemma_pow1(256);
        assert(n / 256 < pow(256, rest));
        le_value_of_bytes(n / 256, rest);
        let bytes = le_bytes(n, count);
        assert(bytes.skip(1) =~= le_bytes(n / 256, rest));
        assert(bytes[0] == (n % 256) as u8);
    }
}

/// Every element of the field fits into thirty-two bytes.
pub proof fn elements_fit(n: nat)
    requires
        n < modulus(),
    ensures
        le_bytes(n, 32).len() == 32,
        le_value(le_bytes(n, 32)) == n,
{
    lemma_pow_8();
    vstd::arithmetic::power::lemma_pow_adds(256, 8, 8);
    vstd::arithmetic::power::lemma_pow_adds(256, 16, 16);
    let p8 = pow(256, 8);
    let p16 = pow(256, 16);
    assert(p8 * p8 == 0x1_0000_0000_0000_0000_0000_0000_0000_0000) by (nonlinear_arith)
        requires
            p8 == 0x1_0000_0000_0000_0000,
    ;
    assert(p16 * p16 > 0x4000_0000_0000_0000_0000_0000_0000_0000_3000_0000_0000_0000_0000_0000_0000_0000)
        by (nonlinear_arith)
        requires
            p16 == 0x1_0000_0000_0000_0000_0000_0000_0000_0000,
    ;
    le_value_of_bytes(n, 32);
}

/// An element of the field in its canonical encoding.
#[derive(Clone, Copy, Debug, PartialEq, Eq)]
pub struct Scalar {
    pub repr: [u8; 32],
}

impl View for Scalar {
    type V = nat;

    open spec fn view(&self) -> nat {
        le_value(self.repr@)
    }
}

impl Scalar {
    /// Whether the encoding is canonical.
    pub open spec fn wf(self) -> bool {
        self@ < modulus()
    }
}

/// The number that four limbs of sixty-four bits make, lowest limb first.
pub open spec fn limbs_value(limbs: Seq<u64>) -> nat {
    (limbs[0] + 0x1_0000_0000_0000_0000 * limbs[1] + 0x1_0000_0000_0000_0000_0000_0000_0000_0000
        * limbs[2] + 0x1_0000_0000_0000_0000_0000_0000_0000_0000_0000_0000_0000_0000
        * limbs[3]) as nat
}

/// `Fp::from_raw` of the crate `pasta_curves` (through `halo2_proofs`) takes a
/// number of 256 bits modulo the size of the field.
#[verifier::external_body]
fn reduce(limbs: [u64; 4]) -> (res: Scalar)
    ensures
        res@ == limbs_value(limbs@) % modulus(),
{
    Scalar { repr: halo2_proofs::pasta::Fp::from_raw(limbs).to_repr() }
}

/// `From<u64>` of `Fp`, of the crate `pasta_curves` (through `halo2_proofs`):
/// the element with this number.
#[verifier::external_body]
pub(crate) fn scalar_from_u64(value: u64) -> (res: Scalar)
    ensures
        res@ == value,
        res.wf(),
{
    Scalar { repr: halo2_proofs::pasta::Fp::from(value).to_repr() }
}

/// `Fp::from_repr` of the crate `pasta_curves` (through `halo2_proofs`) takes
/// only canonical encodings.
#[verifier::external_body]
pub(crate) fn scalar_from_repr(repr: [u8; 32]) -> (res: Option<Scalar>)
    ensures
        res is Some <==> le_value(repr@) < modulus(),
        res matches Some(scalar) ==> scalar.repr@ == repr@,
{
    let element: Option<halo2_proofs::pasta::Fp> = halo2_proofs::pasta::Fp::from_repr(repr).into();
    element.map(|element| Scalar { repr: element.to_repr() })
}

/// Addition of `Fp`, of the crate `pasta_curves` (through `halo2_proofs`).
#[verifier::external_body]
pub(crate) fn scalar_sum(a: Scalar, b: Scalar) -> (res: Scalar)
    requires
        a.wf(),
        b.wf(),
    ensures
        res@ == (a@ + b@) % modulus(),
{
    let a = halo2_proofs::pasta::Fp::from_repr(a.repr).unwrap();
    let b = halo2_proofs::pasta::Fp::from_repr(b.repr).unwrap();
    Scalar { repr: (a + b).to_repr() }
}

/// Multiplication of `Fp`, of the crate `pasta_curves` (through
/// `halo2_proofs`).
#[verifier::external_body]
pub(crate) fn scalar_product(a: Scalar, b: Scalar) -> (res: Scalar)
    requires
        a.wf(),
        b.wf(),
    ensures
        res@ == (a@ * b@) % modulus(),
{
    let a = halo2_proofs::pasta::Fp::from_repr(a.repr).unwrap();
    let b = halo2_proofs::pasta::Fp::from_repr(b.repr).unwrap();
    Scalar { repr: (a * b).to_repr() }
}

proof fn lemma_le_split(bytes: Seq<u8>, n: nat)
    requires
        n <= bytes.len(),
    ensures
        le_value(bytes) == le_value(bytes.take(n as int)) + pow(256, n) * le_value(
            bytes.skip(n as int),
        ),
    decreases n,
{
    if n == 0 {
        assert(bytes.take(0) =~= Seq::empty());
        assert(bytes.skip(0) =~= bytes);
        assert(pow(256, 0) == 1) by {
            vstd::arithmetic::power::lemma_pow0(256);
        }
    } else {
        let rest = bytes.skip(1);
        let m = (n - 1) as nat;
        lemma_le_split(rest, m);
        assert(rest.skip(m as int) =~= bytes.skip(n as int));
        assert(bytes.take(n as int).skip(1) =~= rest.take(m as int));
        assert(bytes.take(n as int)[0] == bytes[0]);
        vstd::arithmetic::power::lemma_pow_adds(256, 1, m);
        vstd::arithmetic::power::lemma_pow1(256);
        let x = le_value(rest.take(m as int));
        let y = le_value(bytes.skip(n as int));
        assert(256 * (x + pow(256, m) * y) == 256 * x + (256 * pow(256, m)) * y)
            by (nonlinear_arith);
    }
}

proof fn lemma_pow_8()
    ensures
        pow(256, 8) == 0x1_0000_0000_0000_0000,
{
    reveal_with_fuel(pow, 9);
}

fn limb_at(bytes: &[u8], at: usize) -> (res: u64)
    requires
        at + 8 <= bytes@.len(),
    ensures
        res == le_value(bytes@.subrange(at as int, at + 8)),
{
    let ghost part = bytes@.subrange(at as int, at + 8);
    let n: usize = bytes.len();
    let mut value: u64 = 0;
    let mut i: usize = 8;
    assert(part.skip(8) =~= Seq::empty());
    let ghost mut bound: int = 0;
    while i > 0
        invariant
            i <= 8,
            at + 8 <= n,
            n == bytes@.len(),
            part == bytes@.subrange(at as int, at + 8),
            value == le_value(part.skip(i as int)),
            value <= bound,
            i == 8 ==> bound == 0,
            i == 7 ==> bound == 0xff,
            i == 6 ==> bound == 0xffff,
            i == 5 ==> bound == 0xff_ffff,
            i == 4 ==> bound == 0xffff_ffff,
            i == 3 ==> bound == 0xff_ffff_ffff,
            i == 2 ==> bound == 0xffff_ffff_ffff,
            i == 1 ==> bound == 0xff_ffff_ffff_ffff,
            i == 0 ==> bound == 0xffff_ffff_ffff_ffff,
        decreases i,
    {
        i = i - 1;
        assert(part.skip(i as int).skip(1) =~= part.skip(i + 1));
        assert(part.skip(i as int)[0] == bytes@[at + i]);
        value = value * 256 + bytes[at + i] as u64;
        proof {
            bound = bound * 256 + 0xff;
        }
    }
    assert(part.skip(0) =~= part);
    value
}

/// The element that thirty-two bytes stand for, modulo the size of the field.
pub fn digest_to_scalar(bytes: &[u8]) -> (res: Scalar)
    requires
        bytes@.len() == 32,
    ensures
        res@ == le_value(bytes@) % modulus(),
        res.wf(),
{
    let limbs: [u64; 4] = [limb_at(bytes, 0), limb_at(bytes, 8), limb_at(bytes, 16), limb_at(
        bytes,
        24,
    )];
    proof {
        let b = bytes@;
        let s8 = b.skip(8);
        let s16 = s8.skip(8);
        let s24 = s16.skip(8);
        lemma_pow_8();
        lemma_le_split(b, 8);
        lemma_le_split(s8, 8);
        lemma_le_split(s16, 8);
        lemma_le_split(s24, 8);
        assert(b.take(8) =~= b.subrange(0, 8));
        assert(s8.take(8) =~= b.subrange(8, 16));
        assert(s16.take(8) =~= b.subrange(16, 24));
        assert(s24.take(8) =~= b.subrange(24, 32));
        assert(s24.skip(8) =~= Seq::empty());
        assert(limbs_value(limbs@) == le_value(b));
    }
    reduce(limbs)
}

} // verus!
