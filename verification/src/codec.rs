//! The byte form of durable artifacts. A value is written as the
//! concatenation of its fields; integers and text are written by postcard.
use vstd::prelude::*;
use vstd::utf8::{
    decode_utf8, encode_utf8, encode_utf8_decode_utf8, encode_utf8_valid_utf8, valid_utf8,
};

verus! {

/// The bytes of a number: seven bits a byte, the lowest first; every byte but
/// the last has its top bit set.
#[verifier::opaque]
pub open spec fn varint(value: nat) -> Seq<u8>
    decreases value,
{
    if value < 128 {
        seq![value as u8]
    } else {
        seq![(value % 128 + 128) as u8] + varint(value / 128)
    }
}

/// The number at the front of some bytes, where it is no greater than `top`,
/// the greatest of its type, and the bytes behind it. Nothing is read where
/// the bytes end first, or where they go on past the last byte `top` takes.
#[verifier::opaque]
pub open spec fn take_varint(b: Seq<u8>, top: nat) -> Option<(nat, Seq<u8>)>
    decreases b.len(),
{
    if b.len() == 0 {
        None
    } else if b[0] < 128 {
        if b[0] <= top {
            Some((b[0] as nat, b.skip(1)))
        } else {
            None
        }
    } else if top < 128 {
        None
    } else {
        match take_varint(b.skip(1), top / 128) {
            None => None,
            Some((value, rest)) => Some(((b[0] - 128 + 128 * value) as nat, rest)),
        }
    }
}

/// Whether some bytes end before the number at their front does, in no more
/// bytes than `top` takes.
pub open spec fn runs_out(b: Seq<u8>, top: nat) -> bool
    decreases b.len(),
{
    b.len() == 0 || (b[0] >= 128 && top >= 128 && runs_out(b.skip(1), top / 128))
}

/// A signed number as one without a sign: 0, -1, 1, -2, 2 and so on.
pub open spec fn zigzag(value: i64) -> nat {
    if value >= 0 {
        (2 * value) as nat
    } else {
        (-2 * value - 1) as nat
    }
}

/// The signed number that one without a sign stands for.
pub open spec fn unzigzag(value: nat) -> i64 {
    if value % 2 == 0 {
        (value / 2) as i64
    } else {
        (-(value / 2) - 1) as i64
    }
}

/// The `u16` at the front of some bytes, and the bytes behind it.
#[verifier::opaque]
pub open spec fn take_u16(b: Seq<u8>) -> Option<(u16, Seq<u8>)> {
    match take_varint(b, u16::MAX as nat) {
        None => None,
        Some((value, rest)) => Some((value as u16, rest)),
    }
}

/// The `u32` at the front of some bytes, and the bytes behind it.
#[verifier::opaque]
pub open spec fn take_u32(b: Seq<u8>) -> Option<(u32, Seq<u8>)> {
    match take_varint(b, u32::MAX as nat) {
        None => None,
        Some((value, rest)) => Some((value as u32, rest)),
    }
}

/// The `u64` at the front of some bytes, and the bytes behind it.
#[verifier::opaque]
pub open spec fn take_u64(b: Seq<u8>) -> Option<(u64, Seq<u8>)> {
    match take_varint(b, u64::MAX as nat) {
        None => None,
        Some((value, rest)) => Some((value as u64, rest)),
    }
}

/// The `i64` at the front of some bytes, and the bytes behind it.
#[verifier::opaque]
pub open spec fn take_i64(b: Seq<u8>) -> Option<(i64, Seq<u8>)> {
    match take_varint(b, u64::MAX as nat) {
        None => None,
        Some((value, rest)) => Some((unzigzag(value), rest)),
    }
}

/// The bytes of a text: their number, then its UTF-8.
#[verifier::opaque]
pub open spec fn text_bytes(text: Seq<char>) -> Seq<u8> {
    varint(encode_utf8(text).len()) + encode_utf8(text)
}

/// The text at the front of some bytes, and the bytes behind it.
#[verifier::opaque]
pub open spec fn take_text(b: Seq<u8>) -> Option<(Seq<char>, Seq<u8>)> {
    match take_varint(b, usize::MAX as nat) {
        None => None,
        Some((size, rest)) => if size > rest.len() || !valid_utf8(rest.take(size as int)) {
            None
        } else {
            Some((decode_utf8(rest.take(size as int)), rest.skip(size as int)))
        },
    }
}

/// A number that is written is read back, whatever follows it.
pub proof fn lemma_varint_reads(value: nat, top: nat, rest: Seq<u8>)
    requires
        value <= top,
    ensures
        take_varint(varint(value) + rest, top) == Some((value, rest)),
    decreases value,
{
    reveal(varint);
    reveal(take_varint);
    let all = varint(value) + rest;
    if value < 128 {
        assert(all.skip(1) =~= rest);
    } else {
        lemma_varint_reads(value / 128, top / 128, rest);
        assert(all[0] == (value % 128 + 128) as u8);
        assert(all.skip(1) =~= varint(value / 128) + rest);
    }
}

/// A number cut short is not read.
proof fn lemma_varint_cut(value: nat, top: nat, n: int)
    requires
        0 <= n < varint(value).len(),
    ensures
        take_varint(varint(value).take(n), top) is None,
    decreases value,
{
    reveal(varint);
    reveal(take_varint);
    let cut = varint(value).take(n);
    if n > 0 {
        assert(cut[0] == (value % 128 + 128) as u8);
        if top >= 128 {
            lemma_varint_cut(value / 128, top / 128, n - 1);
            assert(cut.skip(1) =~= varint(value / 128).take(n - 1));
        }
    }
}

/// How many bytes a number takes: at most three below 2^16, ten below 2^64.
pub proof fn varint_is_short(value: nat)
    requires
        value <= u64::MAX,
    ensures
        1 <= varint(value).len() <= 10,
        value <= u16::MAX ==> varint(value).len() <= 3,
{
    reveal_with_fuel(varint, 10);
}

/// `postcard::to_stdvec` of a `u16`: a variable-length integer.
#[verifier::external_body]
fn write_u16(value: u16) -> (bytes: Vec<u8>)
    ensures
        bytes@ == varint(value as nat),
{
    postcard::to_stdvec(&value).unwrap()
}

/// `postcard::to_stdvec` of a `u32`: a variable-length integer.
#[verifier::external_body]
fn write_u32(value: u32) -> (bytes: Vec<u8>)
    ensures
        bytes@ == varint(value as nat),
{
    postcard::to_stdvec(&value).unwrap()
}

/// `postcard::to_stdvec` of a `u64`: a variable-length integer.
#[verifier::external_body]
fn write_u64(value: u64) -> (bytes: Vec<u8>)
    ensures
        bytes@ == varint(value as nat),
{
    postcard::to_stdvec(&value).unwrap()
}

/// `postcard::to_stdvec` of an `i64`: a zig-zag variable-length integer.
#[verifier::external_body]
fn write_i64(value: i64) -> (bytes: Vec<u8>)
    ensures
        bytes@ == varint(zigzag(value)),
{
    postcard::to_stdvec(&value).unwrap()
}

/// `postcard::to_stdvec` of a text: its length in bytes, then its UTF-8.
#[verifier::external_body]
fn write_text(value: &str) -> (bytes: Vec<u8>)
    ensures
        bytes@ == text_bytes(value@),
{
    postcard::to_stdvec(value).unwrap()
}

/// `postcard::take_from_bytes` of a `u16`: the value at the front of the
/// input and the unread rest, or nothing where it is refused.
#[verifier::external_body]
fn read_u16(input: &[u8]) -> (found: Option<(u16, &[u8])>)
    ensures
        match take_u16(input@) {
            None => found is None,
            Some((value, rest)) => found matches Some(f) && f.0 == value && f.1@ == rest,
        },
{
    postcard::take_from_bytes::<u16>(input).ok()
}

/// `postcard::take_from_bytes` of a `u32`: the value at the front of the
/// input and the unread rest, or nothing where it is refused.
#[verifier::external_body]
fn read_u32(input: &[u8]) -> (found: Option<(u32, &[u8])>)
    ensures
        match take_u32(input@) {
            None => found is None,
            Some((value, rest)) => found matches Some(f) && f.0 == value && f.1@ == rest,
        },
{
    postcard::take_from_bytes::<u32>(input).ok()
}

/// `postcard::take_from_bytes` of a `u64`: the value at the front of the
/// input and the unread rest, or nothing where it is refused.
#[verifier::external_body]
fn read_u64(input: &[u8]) -> (found: Option<(u64, &[u8])>)
    ensures
        match take_u64(input@) {
            None => found is None,
            Some((value, rest)) => found matches Some(f) && f.0 == value && f.1@ == rest,
        },
{
    postcard::take_from_bytes::<u64>(input).ok()
}

/// `postcard::take_from_bytes` of an `i64`: the value at the front of the
/// input, its zig-zag undone and the unread rest, or nothing where it is refused.
#[verifier::external_body]
fn read_i64(input: &[u8]) -> (found: Option<(i64, &[u8])>)
    ensures
        match take_i64(input@) {
            None => found is None,
            Some((value, rest)) => found matches Some(f) && f.0 == value && f.1@ == rest,
        },
{
    postcard::take_from_bytes::<i64>(input).ok()
}

/// `postcard::take_from_bytes` of a `String`: the text at the front of the
/// input and the unread rest, or nothing where it is refused.
#[verifier::external_body]
fn read_text(input: &[u8]) -> (found: Option<(String, &[u8])>)
    ensures
        match take_text(input@) {
            None => found is None,
            Some((text, rest)) => found matches Some(f) && f.0@ == text && f.1@ == rest,
        },
{
    postcard::take_from_bytes::<String>(input).ok()
}

/// A type with a byte form. `model` is what its bytes say of a value.
pub trait Wire: Sized {
    type M;

    spec fn model(&self) -> Self::M;

    /// The bytes of a value.
    spec fn bytes(m: Self::M) -> Seq<u8>;

    /// The value at the front of some bytes, and the bytes behind it.
    spec fn parse(b: Seq<u8>) -> Option<(Self::M, Seq<u8>)>;

    /// Append the value's bytes.
    fn put(&self, out: &mut Vec<u8>)
        ensures
            final(out)@ == old(out)@ + Self::bytes(self.model()),
            forall|rest: Seq<u8>| #[trigger]
                Self::parse(Self::bytes(self.model()) + rest) == Some((self.model(), rest)),
            forall|n: int|
                0 <= n < Self::bytes(self.model()).len() ==> Self::parse(
                    #[trigger] Self::bytes(self.model()).take(n),
                ) is None,
    ;

    /// Read a value at the front of the input.
    fn read(input: &[u8]) -> (found: Option<(Self, &[u8])>)
        ensures
            found is Some == Self::parse(input@) is Some,
            found matches Some(f) ==> Self::parse(input@) == Some((f.0.model(), f.1@)),
    ;
}

/// Reading a value's bytes gives the value and leaves what follows them.
pub open spec fn reads_back<T: Wire>(m: T::M) -> bool {
    forall|rest: Seq<u8>| #[trigger] T::parse(T::bytes(m) + rest) == Some((m, rest))
}

/// A value's bytes cut short are refused.
pub open spec fn refuses_cuts<T: Wire>(m: T::M) -> bool {
    forall|n: int|
        0 <= n < T::bytes(m).len() ==> T::parse(#[trigger] T::bytes(m).take(n)) is None
}

/// Bytes of two parts cut short: the first is cut, or the second.
proof fn take_concat(a: Seq<u8>, b: Seq<u8>, n: int)
    requires
        0 <= n <= a.len() + b.len(),
    ensures
        (a + b).take(n) == (if n < a.len() {
            a.take(n)
        } else {
            a + b.take(n - a.len())
        }),
{
    if n < a.len() {
        assert((a + b).take(n) =~= a.take(n));
    } else {
        assert((a + b).take(n) =~= a + b.take(n - a.len()));
    }
}

/// A value's bytes and what follows them, cut after `n`: the value is refused,
/// or it is read and what follows is cut.
pub proof fn cut_behind<T: Wire>(m: T::M, rest: Seq<u8>, n: int)
    requires
        reads_back::<T>(m),
        refuses_cuts::<T>(m),
    ensures
        0 <= n < T::bytes(m).len() ==> T::parse((T::bytes(m) + rest).take(n)) is None,
        T::bytes(m).len() <= n <= T::bytes(m).len() + rest.len() ==> T::parse(
            (T::bytes(m) + rest).take(n),
        ) == Some((m, rest.take(n - T::bytes(m).len()))),
{
    if 0 <= n <= T::bytes(m).len() + rest.len() {
        take_concat(T::bytes(m), rest, n);
        if n < T::bytes(m).len() {
            assert(T::parse(T::bytes(m).take(n)) is None);
        } else {
            let tail = rest.take(n - T::bytes(m).len());
            assert(T::parse(T::bytes(m) + tail) == Some((m, tail)));
        }
    }
}

/// Concatenation of bytes is associative; the left-nested form is rewritten.
pub broadcast proof fn concat_assoc(a: Seq<u8>, b: Seq<u8>, c: Seq<u8>)
    ensures
        #[trigger] ((a + b) + c) == a + (b + c),
{
    assert((a + b) + c =~= a + (b + c));
}

/// The value of one byte at the front.
pub open spec fn take_byte(b: Seq<u8>) -> Option<(u8, Seq<u8>)> {
    if b.len() == 0 {
        None
    } else {
        Some((b[0], b.subrange(1, b.len() as int)))
    }
}

proof fn lemma_take_byte(byte: u8, rest: Seq<u8>)
    ensures
        take_byte(seq![byte] + rest) == Some((byte, rest)),
{
    let b = seq![byte] + rest;
    assert(b.subrange(1, b.len() as int) =~= rest);
}

/// Read one byte.
fn read_byte(input: &[u8]) -> (found: Option<(u8, &[u8])>)
    ensures
        found is Some == take_byte(input@) is Some,
        found matches Some(f) ==> take_byte(input@) == Some((f.0, f.1@)),
{
    if input.len() == 0 {
        return None;
    }
    let (head, tail) = input.split_at(1);
    assert(head@[0] == input@[0]);
    Some((head[0], tail))
}

/// Append bytes.
pub fn append(out: &mut Vec<u8>, bytes: &[u8])
    ensures
        final(out)@ == old(out)@ + bytes@,
{
    out.extend_from_slice(bytes);
    assert(out@ =~= old(out)@ + bytes@);
}

impl Wire for u16 {
    type M = u16;

    open spec fn model(&self) -> u16 {
        *self
    }

    open spec fn bytes(m: u16) -> Seq<u8> {
        varint(m as nat)
    }

    open spec fn parse(b: Seq<u8>) -> Option<(u16, Seq<u8>)> {
        take_u16(b)
    }

    fn put(&self, out: &mut Vec<u8>) {
        let bytes = write_u16(*self);
        append(out, bytes.as_slice());
        proof {
            reveal(take_u16);
            assert forall|rest: Seq<u8>| #[trigger]
                Self::parse(Self::bytes(self.model()) + rest) == Some((self.model(), rest)) by {
                lemma_varint_reads(*self as nat, u16::MAX as nat, rest);
            }
            assert forall|n: int| 0 <= n < Self::bytes(self.model()).len() implies Self::parse(
                #[trigger] Self::bytes(self.model()).take(n),
            ) is None by {
                lemma_varint_cut(*self as nat, u16::MAX as nat, n);
            }
        }
    }

    fn read(input: &[u8]) -> Option<(u16, &[u8])> {
        read_u16(input)
    }
}

impl Wire for u32 {
    type M = u32;

    open spec fn model(&self) -> u32 {
        *self
    }

    open spec fn bytes(m: u32) -> Seq<u8> {
        varint(m as nat)
    }

    open spec fn parse(b: Seq<u8>) -> Option<(u32, Seq<u8>)> {
        take_u32(b)
    }

    fn put(&self, out: &mut Vec<u8>) {
        let bytes = write_u32(*self);
        append(out, bytes.as_slice());
        proof {
            reveal(take_u32);
            assert forall|rest: Seq<u8>| #[trigger]
                Self::parse(Self::bytes(self.model()) + rest) == Some((self.model(), rest)) by {
                lemma_varint_reads(*self as nat, u32::MAX as nat, rest);
            }
            assert forall|n: int| 0 <= n < Self::bytes(self.model()).len() implies Self::parse(
                #[trigger] Self::bytes(self.model()).take(n),
            ) is None by {
                lemma_varint_cut(*self as nat, u32::MAX as nat, n);
            }
        }
    }

    fn read(input: &[u8]) -> Option<(u32, &[u8])> {
        read_u32(input)
    }
}

impl Wire for u64 {
    type M = u64;

    open spec fn model(&self) -> u64 {
        *self
    }

    open spec fn bytes(m: u64) -> Seq<u8> {
        varint(m as nat)
    }

    open spec fn parse(b: Seq<u8>) -> Option<(u64, Seq<u8>)> {
        take_u64(b)
    }

    fn put(&self, out: &mut Vec<u8>) {
        let bytes = write_u64(*self);
        append(out, bytes.as_slice());
        proof {
            reveal(take_u64);
            assert forall|rest: Seq<u8>| #[trigger]
                Self::parse(Self::bytes(self.model()) + rest) == Some((self.model(), rest)) by {
                lemma_varint_reads(*self as nat, u64::MAX as nat, rest);
            }
            assert forall|n: int| 0 <= n < Self::bytes(self.model()).len() implies Self::parse(
                #[trigger] Self::bytes(self.model()).take(n),
            ) is None by {
                lemma_varint_cut(*self as nat, u64::MAX as nat, n);
            }
        }
    }

    fn read(input: &[u8]) -> Option<(u64, &[u8])> {
        read_u64(input)
    }
}

impl Wire for i64 {
    type M = i64;

    open spec fn model(&self) -> i64 {
        *self
    }

    open spec fn bytes(m: i64) -> Seq<u8> {
        varint(zigzag(m))
    }

    open spec fn parse(b: Seq<u8>) -> Option<(i64, Seq<u8>)> {
        take_i64(b)
    }

    fn put(&self, out: &mut Vec<u8>) {
        let bytes = write_i64(*self);
        append(out, bytes.as_slice());
        proof {
            reveal(take_i64);
            assert forall|rest: Seq<u8>| #[trigger]
                Self::parse(Self::bytes(self.model()) + rest) == Some((self.model(), rest)) by {
                lemma_varint_reads(zigzag(*self), u64::MAX as nat, rest);
                assert(unzigzag(zigzag(*self)) == *self);
            }
            assert forall|n: int| 0 <= n < Self::bytes(self.model()).len() implies Self::parse(
                #[trigger] Self::bytes(self.model()).take(n),
            ) is None by {
                lemma_varint_cut(zigzag(*self), u64::MAX as nat, n);
            }
        }
    }

    fn read(input: &[u8]) -> Option<(i64, &[u8])> {
        read_i64(input)
    }
}

impl Wire for String {
    type M = Seq<char>;

    open spec fn model(&self) -> Seq<char> {
        self@
    }

    open spec fn bytes(m: Seq<char>) -> Seq<u8> {
        text_bytes(m)
    }

    open spec fn parse(b: Seq<u8>) -> Option<(Seq<char>, Seq<u8>)> {
        take_text(b)
    }

    fn put(&self, out: &mut Vec<u8>) {
        let bytes = write_text(self.as_str());
        append(out, bytes.as_slice());
        proof {
            reveal(text_bytes);
            reveal(take_text);
            let body = encode_utf8(self@);
            assert(body.len() <= bytes@.len() == bytes.len() <= usize::MAX);
            assert forall|rest: Seq<u8>| #[trigger]
                Self::parse(Self::bytes(self.model()) + rest) == Some((self.model(), rest)) by {
                lemma_varint_reads(body.len(), usize::MAX as nat, body + rest);
                concat_assoc(varint(body.len()), body, rest);
                assert((body + rest).take(body.len() as int) =~= body);
                assert((body + rest).skip(body.len() as int) =~= rest);
                encode_utf8_valid_utf8(self@);
                encode_utf8_decode_utf8(self@);
            }
            assert forall|n: int| 0 <= n < Self::bytes(self.model()).len() implies Self::parse(
                #[trigger] Self::bytes(self.model()).take(n),
            ) is None by {
                take_concat(varint(body.len()), body, n);
                if n < varint(body.len()).len() {
                    lemma_varint_cut(body.len(), usize::MAX as nat, n);
                } else {
                    let cut = body.take(n - varint(body.len()).len());
                    lemma_varint_reads(body.len(), usize::MAX as nat, cut);
                }
            }
        }
    }

    fn read(input: &[u8]) -> Option<(String, &[u8])> {
        read_text(input)
    }
}

impl Wire for bool {
    type M = bool;

    open spec fn model(&self) -> bool {
        *self
    }

    open spec fn bytes(m: bool) -> Seq<u8> {
        seq![if m { 1u8 } else { 0u8 }]
    }

    open spec fn parse(b: Seq<u8>) -> Option<(bool, Seq<u8>)> {
        match take_byte(b) {
            None => None,
            Some((byte, rest)) => if byte == 0 {
                Some((false, rest))
            } else if byte == 1 {
                Some((true, rest))
            } else {
                None
            },
        }
    }

    fn put(&self, out: &mut Vec<u8>) {
        out.push(if *self { 1 } else { 0 });
        proof {
            assert(out@ =~= old(out)@ + Self::bytes(self.model()));
            assert forall|rest: Seq<u8>| #[trigger]
                Self::parse(Self::bytes(self.model()) + rest) == Some((self.model(), rest)) by {
                lemma_take_byte(if *self { 1u8 } else { 0u8 }, rest);
            }
        }
    }

    fn read(input: &[u8]) -> Option<(bool, &[u8])> {
        match read_byte(input) {
            None => None,
            Some((byte, rest)) => if byte == 0 {
                Some((false, rest))
            } else if byte == 1 {
                Some((true, rest))
            } else {
                None
            },
        }
    }
}

impl<T: Wire> Wire for Option<T> {
    type M = Option<T::M>;

    open spec fn model(&self) -> Option<T::M> {
        match self {
            None => None,
            Some(value) => Some(value.model()),
        }
    }

    open spec fn bytes(m: Option<T::M>) -> Seq<u8> {
        match m {
            None => seq![0u8],
            Some(value) => seq![1u8] + T::bytes(value),
        }
    }

    open spec fn parse(b: Seq<u8>) -> Option<(Option<T::M>, Seq<u8>)> {
        match take_byte(b) {
            None => None,
            Some((byte, rest)) => if byte == 0 {
                Some((None, rest))
            } else if byte == 1 {
                match T::parse(rest) {
                    None => None,
                    Some((value, tail)) => Some((Some(value), tail)),
                }
            } else {
                None
            },
        }
    }

    fn put(&self, out: &mut Vec<u8>) {
        broadcast use concat_assoc;

        match self {
            None => {
                out.push(0);
                proof {
                    assert(out@ =~= old(out)@ + seq![0u8]);
                    assert forall|rest: Seq<u8>| #[trigger]
                        Self::parse(Self::bytes(self.model()) + rest) == Some(
                        (self.model(), rest),
                    ) by {
                        lemma_take_byte(0u8, rest);
                    }
                    assert forall|n: int| 0 <= n < Self::bytes(self.model()).len() implies Self::parse(
                        #[trigger] Self::bytes(self.model()).take(n),
                    ) is None by {
                        assert(Self::bytes(self.model()).take(n).len() == 0);
                    }
                }
            },
            Some(value) => {
                out.push(1);
                assert(out@ =~= old(out)@ + seq![1u8]);
                value.put(out);
                proof {
                    assert forall|rest: Seq<u8>| #[trigger]
                        Self::parse(Self::bytes(self.model()) + rest) == Some(
                        (self.model(), rest),
                    ) by {
                        lemma_take_byte(1u8, T::bytes(value.model()) + rest);
                    }
                    assert forall|n: int| 0 <= n < Self::bytes(self.model()).len() implies Self::parse(
                        #[trigger] Self::bytes(self.model()).take(n),
                    ) is None by {
                        let inner = T::bytes(value.model());
                        take_concat(seq![1u8], inner, n);
                        if n > 0 {
                            lemma_take_byte(1u8, inner.take(n - 1));
                            assert(T::parse(T::bytes(value.model()).take(n - 1)) is None);
                        }
                    }
                }
            },
        }
    }

    fn read(input: &[u8]) -> Option<(Option<T>, &[u8])> {
        match read_byte(input) {
            None => None,
            Some((byte, rest)) => if byte == 0 {
                Some((None, rest))
            } else if byte == 1 {
                match T::read(rest) {
                    None => None,
                    Some((value, tail)) => Some((Some(value), tail)),
                }
            } else {
                None
            },
        }
    }
}

/// The array that holds the first 16 of some bytes.
pub open spec fn array_16(b: Seq<u8>) -> [u8; 16] {
    choose|a: [u8; 16]| a@ == b.take(16)
}

/// Copy the first 16 bytes.
pub fn copy_16(input: &[u8]) -> (a: [u8; 16])
    requires
        input@.len() >= 16,
    ensures
        a@ == input@.take(16),
        a == array_16(input@),
{
    let mut a: [u8; 16] = [0u8; 16];
    let mut i: usize = 0;
    while i < 16
        invariant
            i <= 16,
            input@.len() >= 16,
            forall|j: int| 0 <= j < i ==> a@[j] == input@[j],
        decreases 16 - i,
    {
        a[i] = input[i];
        i += 1;
    }
    proof {
        assert(a@ =~= input@.take(16));
        let b = array_16(input@);
        assert(b@ == a@);
        assert(forall|j: int| 0 <= j < 16 ==> a[j] == b@[j]);
        assert(a =~= b);
    }
    a
}

impl Wire for [u8; 16] {
    type M = [u8; 16];

    open spec fn model(&self) -> [u8; 16] {
        *self
    }

    open spec fn bytes(m: [u8; 16]) -> Seq<u8> {
        m@
    }

    open spec fn parse(b: Seq<u8>) -> Option<([u8; 16], Seq<u8>)> {
        if b.len() < 16 {
            None
        } else {
            Some((array_16(b), b.skip(16)))
        }
    }

    fn put(&self, out: &mut Vec<u8>) {
        append(out, self.as_slice());
        proof {
            assert forall|rest: Seq<u8>| #[trigger]
                Self::parse(Self::bytes(self.model()) + rest) == Some((self.model(), rest)) by {
                let all = self@ + rest;
                assert(all.take(16) =~= self@);
                assert(all.skip(16) =~= rest);
                let b = array_16(all);
                assert(b@ == self@);
                assert(forall|j: int| 0 <= j < 16 ==> self[j] == b@[j]);
                assert(*self =~= b);
            }
        }
    }

    fn read(input: &[u8]) -> Option<([u8; 16], &[u8])> {
        if input.len() < 16 {
            return None;
        }
        let (head, tail) = input.split_at(16);
        assert(tail@ =~= input@.skip(16));
        let a = copy_16(input);
        Some((a, tail))
    }
}

/// The array that holds the first 32 of some bytes.
pub open spec fn array_32(b: Seq<u8>) -> [u8; 32] {
    choose|a: [u8; 32]| a@ == b.take(32)
}

/// Copy the first 32 bytes.
pub fn copy_32(input: &[u8]) -> (a: [u8; 32])
    requires
        input@.len() >= 32,
    ensures
        a@ == input@.take(32),
        a == array_32(input@),
{
    let mut a: [u8; 32] = [0u8; 32];
    let mut i: usize = 0;
    while i < 32
        invariant
            i <= 32,
            input@.len() >= 32,
            forall|j: int| 0 <= j < i ==> a@[j] == input@[j],
        decreases 32 - i,
    {
        a[i] = input[i];
        i += 1;
    }
    proof {
        assert(a@ =~= input@.take(32));
        let b = array_32(input@);
        assert(b@ == a@);
        assert(forall|j: int| 0 <= j < 32 ==> a[j] == b@[j]);
        assert(a =~= b);
    }
    a
}

impl Wire for [u8; 32] {
    type M = [u8; 32];

    open spec fn model(&self) -> [u8; 32] {
        *self
    }

    open spec fn bytes(m: [u8; 32]) -> Seq<u8> {
        m@
    }

    open spec fn parse(b: Seq<u8>) -> Option<([u8; 32], Seq<u8>)> {
        if b.len() < 32 {
            None
        } else {
            Some((array_32(b), b.skip(32)))
        }
    }

    fn put(&self, out: &mut Vec<u8>) {
        append(out, self.as_slice());
        proof {
            assert forall|rest: Seq<u8>| #[trigger]
                Self::parse(Self::bytes(self.model()) + rest) == Some((self.model(), rest)) by {
                let all = self@ + rest;
                assert(all.take(32) =~= self@);
                assert(all.skip(32) =~= rest);
                let b = array_32(all);
                assert(b@ == self@);
                assert(forall|j: int| 0 <= j < 32 ==> self[j] == b@[j]);
                assert(*self =~= b);
            }
        }
    }

    fn read(input: &[u8]) -> Option<([u8; 32], &[u8])> {
        if input.len() < 32 {
            return None;
        }
        let (head, tail) = input.split_at(32);
        assert(tail@ =~= input@.skip(32));
        let a = copy_32(input);
        Some((a, tail))
    }
}

/// The bytes of a list's values, one after another.
pub open spec fn bytes_all<T: Wire>(m: Seq<T::M>) -> Seq<u8>
    decreases m.len(),
{
    if m.len() == 0 {
        Seq::empty()
    } else {
        T::bytes(m[0]) + bytes_all::<T>(m.drop_first())
    }
}

/// The next `n` values of some bytes, and the bytes behind them.
pub open spec fn parse_all<T: Wire>(n: nat, b: Seq<u8>) -> Option<(Seq<T::M>, Seq<u8>)>
    decreases n,
{
    if n == 0 {
        Some((Seq::empty(), b))
    } else {
        match T::parse(b) {
            None => None,
            Some((first, tail)) => match parse_all::<T>((n - 1) as nat, tail) {
                None => None,
                Some((others, end)) => Some((seq![first] + others, end)),
            },
        }
    }
}

proof fn lemma_bytes_all_push<T: Wire>(m: Seq<T::M>, last: T::M)
    ensures
        bytes_all::<T>(m.push(last)) == bytes_all::<T>(m) + T::bytes(last),
    decreases m.len(),
{
    let all = m.push(last);
    if m.len() == 0 {
        assert(all.drop_first() =~= Seq::<T::M>::empty());
        assert(bytes_all::<T>(all.drop_first()) == Seq::<u8>::empty());
        assert(bytes_all::<T>(all) =~= bytes_all::<T>(m) + T::bytes(last));
    } else {
        assert(all.drop_first() =~= m.drop_first().push(last));
        lemma_bytes_all_push::<T>(m.drop_first(), last);
        assert(bytes_all::<T>(all) =~= bytes_all::<T>(m) + T::bytes(last));
    }
}

proof fn lemma_parse_all<T: Wire>(m: Seq<T::M>, rest: Seq<u8>)
    requires
        forall|i: int| 0 <= i < m.len() ==> reads_back::<T>(#[trigger] m[i]),
    ensures
        parse_all::<T>(m.len(), bytes_all::<T>(m) + rest) == Some((m, rest)),
    decreases m.len(),
{
    broadcast use concat_assoc;

    if m.len() == 0 {
        assert(bytes_all::<T>(m) + rest =~= rest);
        assert(m =~= Seq::empty());
    } else {
        let tail = m.drop_first();
        assert forall|i: int| 0 <= i < tail.len() implies reads_back::<T>(#[trigger] tail[i]) by {
            assert(tail[i] == m[i + 1]);
        }
        lemma_parse_all::<T>(tail, rest);
        assert(reads_back::<T>(m[0]));
        assert(bytes_all::<T>(m) + rest == T::bytes(m[0]) + (bytes_all::<T>(tail) + rest));
        assert(seq![m[0]] + tail =~= m);
    }
}

proof fn lemma_parse_all_cut<T: Wire>(m: Seq<T::M>, n: int)
    requires
        forall|i: int|
            0 <= i < m.len() ==> reads_back::<T>(#[trigger] m[i]) && refuses_cuts::<T>(m[i]),
        0 <= n < bytes_all::<T>(m).len(),
    ensures
        parse_all::<T>(m.len(), bytes_all::<T>(m).take(n)) is None,
    decreases m.len(),
{
    if m.len() > 0 {
        let tail = m.drop_first();
        let head = T::bytes(m[0]);
        assert(reads_back::<T>(m[0]) && refuses_cuts::<T>(m[0]));
        assert forall|i: int| 0 <= i < tail.len() implies reads_back::<T>(#[trigger] tail[i])
            && refuses_cuts::<T>(tail[i]) by {
            assert(tail[i] == m[i + 1]);
        }
        take_concat(head, bytes_all::<T>(tail), n);
        if n < head.len() {
            assert(T::parse(T::bytes(m[0]).take(n)) is None);
        } else {
            let rest = bytes_all::<T>(tail).take(n - head.len());
            assert(T::parse(T::bytes(m[0]) + rest) == Some((m[0], rest)));
            lemma_parse_all_cut::<T>(tail, n - head.len());
        }
    }
}

/// A list's models.
pub open spec fn models<T: Wire>(s: Seq<T>) -> Seq<T::M> {
    Seq::new(s.len(), |i: int| s[i].model())
}

/// A list of numbers is its own model.
pub broadcast proof fn numbers_are_models(s: Seq<u64>)
    ensures
        #[trigger] models::<u64>(s) == s,
{
    assert(models::<u64>(s) =~= s);
}

/// A list of texts has the texts as its model.
pub broadcast proof fn texts_are_models(s: Seq<String>)
    ensures
        #[trigger] models::<String>(s) == crate::config::texts(s),
{
    assert(models::<String>(s) =~= crate::config::texts(s));
}

impl<T: Wire> Wire for Vec<T> {
    type M = Seq<T::M>;

    open spec fn model(&self) -> Seq<T::M> {
        models(self@)
    }

    open spec fn bytes(m: Seq<T::M>) -> Seq<u8> {
        u64::bytes(m.len() as u64) + bytes_all::<T>(m)
    }

    open spec fn parse(b: Seq<u8>) -> Option<(Seq<T::M>, Seq<u8>)> {
        match u64::parse(b) {
            None => None,
            Some((n, tail)) => parse_all::<T>(n as nat, tail),
        }
    }

    fn put(&self, out: &mut Vec<u8>) {
        broadcast use concat_assoc;

        let count: u64 = self.len() as u64;
        count.put(out);
        let ghost start = out@;
        let ghost m = self.model();
        let mut i: usize = 0;
        while i < self.len()
            invariant
                i <= self.len(),
                m == self.model(),
                out@ == start + bytes_all::<T>(m.take(i as int)),
                forall|j: int|
                    0 <= j < i ==> reads_back::<T>(#[trigger] m[j]) && refuses_cuts::<T>(m[j]),
            decreases self.len() - i,
        {
            self[i].put(out);
            proof {
                assert(m.take(i + 1) =~= m.take(i as int).push(m[i as int]));
                lemma_bytes_all_push::<T>(m.take(i as int), m[i as int]);
                concat_assoc(start, bytes_all::<T>(m.take(i as int)), T::bytes(m[i as int]));
            }
            i += 1;
        }
        proof {
            assert(m.take(m.len() as int) =~= m);
            assert forall|rest: Seq<u8>| #[trigger]
                Self::parse(Self::bytes(self.model()) + rest) == Some((self.model(), rest)) by {
                lemma_parse_all::<T>(m, rest);
                assert(reads_back::<u64>(count));
                assert(Self::bytes(m) + rest == u64::bytes(count) + (bytes_all::<T>(m) + rest));
                assert(u64::parse(u64::bytes(count) + (bytes_all::<T>(m) + rest)) is Some);
            }
            assert forall|n: int| 0 <= n < Self::bytes(self.model()).len() implies Self::parse(
                #[trigger] Self::bytes(self.model()).take(n),
            ) is None by {
                let head = u64::bytes(count);
                assert(refuses_cuts::<u64>(count));
                assert(u64::bytes(count) == head);
                take_concat(head, bytes_all::<T>(m), n);
                if n < head.len() {
                    assert(u64::parse(u64::bytes(count).take(n)) is None);
                } else {
                    let rest = bytes_all::<T>(m).take(n - head.len());
                    assert(u64::parse(u64::bytes(count) + rest) == Some((count, rest)));
                    lemma_parse_all_cut::<T>(m, n - head.len());
                }
            }
        }
    }

    fn read(input: &[u8]) -> Option<(Vec<T>, &[u8])> {
        match u64::read(input) {
            None => None,
            Some((n, tail)) => {
                let mut found: Vec<T> = Vec::new();
                let mut left: u64 = n;
                let mut cursor: &[u8] = tail;
                assert(models(found@) =~= Seq::<T::M>::empty());
                proof {
                    if let Some((others, end)) = parse_all::<T>(n as nat, tail@) {
                        assert(Seq::<T::M>::empty() + others =~= others);
                    }
                }
                while left > 0
                    invariant
                        parse_all::<T>(n as nat, tail@) == (match parse_all::<T>(
                            left as nat,
                            cursor@,
                        ) {
                            None => None,
                            Some((others, end)) => Some((models(found@) + others, end)),
                        }),
                        Self::parse(input@) == parse_all::<T>(n as nat, tail@),
                    decreases left,
                {
                    match T::read(cursor) {
                        None => {
                            return None;
                        },
                        Some((value, next)) => {
                            let ghost before = models(found@);
                            let ghost first = value.model();
                            found.push(value);
                            proof {
                                assert(models(found@) =~= before.push(first));
                                if let Some((others, end)) = parse_all::<T>(
                                    (left - 1) as nat,
                                    next@,
                                ) {
                                    assert(before + (seq![first] + others) =~= before.push(first)
                                        + others);
                                }
                            }
                            cursor = next;
                            left -= 1;
                        },
                    }
                }
                assert(models(found@) + Seq::<T::M>::empty() =~= models(found@));
                Some((found, cursor))
            },
        }
    }
}

} // verus!
