//! Socket identifiers of the TAS-input bridge: `tasinput-` followed by the
//! upper-case hexadecimal form of a random 128-bit value, zero-padded to at
//! least sixteen digits (what `format!("tasinput-{:016X}", uuid)` prints).

use interprocess::local_socket::{GenericNamespaced, Name, ToNsName};
use vstd::prelude::*;

verus! {

/// The character that upper-case hexadecimal formatting prints for the digit `d` (0..16).
pub open spec fn hex_upper_char(d: int) -> char {
    if d == 0 { '0' }
    else if d == 1 { '1' }
    else if d == 2 { '2' }
    else if d == 3 { '3' }
    else if d == 4 { '4' }
    else if d == 5 { '5' }
    else if d == 6 { '6' }
    else if d == 7 { '7' }
    else if d == 8 { '8' }
    else if d == 9 { '9' }
    else if d == 10 { 'A' }
    else if d == 11 { 'B' }
    else if d == 12 { 'C' }
    else if d == 13 { 'D' }
    else if d == 14 { 'E' }
    else { 'F' }
}

/// The upper-case hexadecimal digits of `n`, most significant first, with no
/// leading zero (`"0"` for zero).
pub open spec fn hex_digits(n: nat) -> Seq<char>
    decreases n,
{
    if n < 16 {
        seq![hex_upper_char(n as int)]
    } else {
        hex_digits(n / 16).push(hex_upper_char((n % 16) as int))
    }
}

/// `s` with `'0'` characters in front, up to `width` characters in all.
pub open spec fn zero_padded(s: Seq<char>, width: nat) -> Seq<char> {
    if s.len() < width {
        Seq::new((width - s.len()) as nat, |i: int| '0') + s
    } else {
        s
    }
}

/// The fixed start of every socket identifier.
pub open spec fn socket_id_prefix() -> Seq<char> {
    seq!['t', 'a', 's', 'i', 'n', 'p', 'u', 't', '-']
}

/// The socket identifier made from `uuid`.
pub open spec fn socket_id_of(uuid: u128) -> Seq<char> {
    socket_id_prefix() + zero_padded(hex_digits(uuid as nat), 16)
}

/// The value of a hexadecimal digit character (upper case; 0 for any other character).
pub open spec fn hex_char_value(c: char) -> nat {
    if c == '1' { 1 }
    else if c == '2' { 2 }
    else if c == '3' { 3 }
    else if c == '4' { 4 }
    else if c == '5' { 5 }
    else if c == '6' { 6 }
    else if c == '7' { 7 }
    else if c == '8' { 8 }
    else if c == '9' { 9 }
    else if c == 'A' { 10 }
    else if c == 'B' { 11 }
    else if c == 'C' { 12 }
    else if c == 'D' { 13 }
    else if c == 'E' { 14 }
    else if c == 'F' { 15 }
    else { 0 }
}

/// The number that a string of hexadecimal digits denotes, most significant first.
pub open spec fn hex_value(s: Seq<char>) -> nat
    decreases s.len(),
{
    if s.len() == 0 {
        0
    } else {
        hex_value(s.drop_last()) * 16 + hex_char_value(s.last())
    }
}

proof fn lemma_digit_value(d: int)
    requires
        0 <= d < 16,
    ensures
        hex_char_value(hex_upper_char(d)) == d,
{
}

/// Reading the digits of `n` back gives `n`.
pub proof fn lemma_hex_digits_value(n: nat)
    ensures
        hex_value(hex_digits(n)) == n,
    decreases n,
{
    if n < 16 {
        lemma_digit_value(n as int);
        let s = hex_digits(n);
        assert(s.drop_last() =~= Seq::<char>::empty());
        assert(hex_value(s.drop_last()) == 0);
        assert(s.last() == hex_upper_char(n as int));
    } else {
        lemma_hex_digits_value(n / 16);
        lemma_digit_value((n % 16) as int);
        let s = hex_digits(n);
        assert(s.drop_last() =~= hex_digits(n / 16));
        assert(s.last() == hex_upper_char((n % 16) as int));
        assert(hex_value(s) == hex_value(s.drop_last()) * 16 + hex_char_value(s.last()));
        assert(n == (n / 16) * 16 + n % 16);
    }
}

proof fn lemma_zeros_value(k: nat)
    ensures
        hex_value(Seq::new(k, |i: int| '0')) == 0,
    decreases k,
{
    if k > 0 {
        lemma_zeros_value((k - 1) as nat);
        assert(Seq::new(k, |i: int| '0').drop_last() =~= Seq::new((k - 1) as nat, |i: int| '0'));
    }
}

proof fn lemma_leading_zeros_value(k: nat, s: Seq<char>)
    ensures
        hex_value(Seq::new(k, |i: int| '0') + s) == hex_value(s),
    decreases s.len(),
{
    let z = Seq::new(k, |i: int| '0');
    if s.len() == 0 {
        assert(z + s =~= z);
        lemma_zeros_value(k);
    } else {
        lemma_leading_zeros_value(k, s.drop_last());
        assert((z + s).drop_last() =~= z + s.drop_last());
        assert((z + s).last() == s.last());
    }
}

/// Two socket identifiers are equal exactly when the random values they
/// were made from are: formatting a value as a socket identifier loses
/// nothing of it.
pub proof fn socket_ids_are_distinct(a: u128, b: u128)
    ensures
        socket_id_of(a) == socket_id_of(b) <==> a == b,
{
    let pa = zero_padded(hex_digits(a as nat), 16);
    let pb = zero_padded(hex_digits(b as nat), 16);
    lemma_hex_digits_value(a as nat);
    lemma_hex_digits_value(b as nat);
    if hex_digits(a as nat).len() < 16 {
        lemma_leading_zeros_value((16 - hex_digits(a as nat).len()) as nat, hex_digits(a as nat));
    }
    if hex_digits(b as nat).len() < 16 {
        lemma_leading_zeros_value((16 - hex_digits(b as nat).len()) as nat, hex_digits(b as nat));
    }
    assert(hex_value(pa) == a);
    assert(hex_value(pb) == b);
    if socket_id_of(a) == socket_id_of(b) {
        assert(socket_id_of(a).skip(9) =~= pa);
        assert(socket_id_of(b).skip(9) =~= pb);
    }
}

/// Whether `c` is a digit of upper-case hexadecimal: `0`-`9` or `A`-`F`.
pub open spec fn is_hex_upper_digit(c: char) -> bool {
    ('0' <= c && c <= '9') || ('A' <= c && c <= 'F')
}

proof fn lemma_hex_digits_are_digits(n: nat)
    ensures
        forall|i: int| 0 <= i < hex_digits(n).len() ==> is_hex_upper_digit(#[trigger] hex_digits(n)[i]),
    decreases n,
{
    let d = hex_digits(n);
    if n < 16 {
        assert(d[0] == hex_upper_char(n as int));
    } else {
        lemma_hex_digits_are_digits(n / 16);
        let prev = hex_digits(n / 16);
        assert(d == prev.push(hex_upper_char((n % 16) as int)));
        assert forall|i: int| 0 <= i < d.len() implies is_hex_upper_digit(#[trigger] d[i]) by {
            if i < prev.len() {
                assert(d[i] == prev[i]);
            } else {
                assert(d[i] == hex_upper_char((n % 16) as int));
            }
        }
    }
}

proof fn lemma_hex_digits_lead(n: nat)
    requires
        n >= 1,
    ensures
        hex_digits(n)[0] != '0',
        hex_digits(n).len() >= 1,
    decreases n,
{
    if n >= 16 {
        lemma_hex_digits_lead(n / 16);
        assert(hex_digits(n)[0] == hex_digits(n / 16)[0]);
    }
}

proof fn lemma_hex_digits_len_positive(n: nat)
    ensures
        hex_digits(n).len() >= 1,
    decreases n,
{
    if n >= 16 {
        lemma_hex_digits_len_positive(n / 16);
    }
}

/// The shape of a socket identifier: `tasinput-` followed only by upper-case
/// hexadecimal digits that denote the value; at least sixteen digits, and
/// exactly as many as the value has once it has sixteen or more (padding
/// never goes beyond sixteen, so a longer identifier starts with a non-zero
/// digit).
pub proof fn socket_id_format(uuid: u128)
    ensures
        socket_id_of(uuid).len() == 9 + if hex_digits(uuid as nat).len() < 16 {
            16
        } else {
            hex_digits(uuid as nat).len()
        },
        socket_id_of(uuid).subrange(0, 9) == seq!['t', 'a', 's', 'i', 'n', 'p', 'u', 't', '-'],
        forall|i: int|
            9 <= i < socket_id_of(uuid).len() ==> is_hex_upper_digit(#[trigger] socket_id_of(uuid)[i]),
        socket_id_of(uuid).len() > 25 ==> socket_id_of(uuid)[9] != '0',
        hex_value(socket_id_of(uuid).skip(9)) == uuid,
        hex_digits(uuid as nat).len() >= 16 ==> socket_id_of(uuid) == seq![
            't',
            'a',
            's',
            'i',
            'n',
            'p',
            'u',
            't',
            '-',
        ] + hex_digits(uuid as nat),
{
    let d = hex_digits(uuid as nat);
    let id = socket_id_of(uuid);
    lemma_hex_digits_are_digits(uuid as nat);
    lemma_hex_digits_value(uuid as nat);
    lemma_hex_digits_len_positive(uuid as nat);
    assert(id.subrange(0, 9) =~= socket_id_prefix());
    assert(id.skip(9) =~= zero_padded(d, 16));
    if d.len() < 16 {
        let k = (16 - d.len()) as nat;
        lemma_leading_zeros_value(k, d);
        assert forall|i: int| 9 <= i < id.len() implies is_hex_upper_digit(#[trigger] id[i]) by {
            if i - 9 >= k {
                assert(id[i] == d[i - 9 - k]);
            } else {
                assert(id[i] == '0');
            }
        }
    } else {
        assert forall|i: int| 9 <= i < id.len() implies is_hex_upper_digit(#[trigger] id[i]) by {
            assert(id[i] == d[i - 9]);
        }
        if d.len() > 16 {
            if uuid == 0 {
                assert(d =~= seq!['0']);
            }
            lemma_hex_digits_lead(uuid as nat);
            assert(id[9] == d[0]);
        }
    }
}

/// Appends a character (`String::push`).
#[verifier::external_body]
fn push_char(s: &mut String, c: char)
    ensures
        final(s)@ == old(s)@.push(c),
{
    s.push(c)
}

fn hex_upper_digit(d: u8) -> (c: char)
    requires
        d < 16,
    ensures
        c == hex_upper_char(d as int),
{
    if d == 0 { '0' }
    else if d == 1 { '1' }
    else if d == 2 { '2' }
    else if d == 3 { '3' }
    else if d == 4 { '4' }
    else if d == 5 { '5' }
    else if d == 6 { '6' }
    else if d == 7 { '7' }
    else if d == 8 { '8' }
    else if d == 9 { '9' }
    else if d == 10 { 'A' }
    else if d == 11 { 'B' }
    else if d == 12 { 'C' }
    else if d == 13 { 'D' }
    else if d == 14 { 'E' }
    else { 'F' }
}

fn push_hex_digits(out: &mut Vec<char>, n: u128)
    ensures
        final(out)@ == old(out)@ + hex_digits(n as nat),
    decreases n,
{
    if n >= 16 {
        push_hex_digits(out, n / 16);
    }
    let d: u8 = (n % 16) as u8;
    out.push(hex_upper_digit(d));
    assert(out@ == old(out)@ + hex_digits(n as nat));
}

/// Formats the socket identifier of `uuid`.
pub fn socket_id_for(uuid: u128) -> (id: String)
    ensures
        id@ == socket_id_of(uuid),
        id@.len() == 9 + if hex_digits(uuid as nat).len() < 16 {
            16
        } else {
            hex_digits(uuid as nat).len()
        },
        id@.subrange(0, 9) == seq!['t', 'a', 's', 'i', 'n', 'p', 'u', 't', '-'],
        forall|i: int| 9 <= i < id@.len() ==> is_hex_upper_digit(#[trigger] id@[i]),
        id@.len() > 25 ==> id@[9] != '0',
        hex_value(id@.skip(9)) == uuid,
        hex_digits(uuid as nat).len() >= 16 ==> id@ == socket_id_prefix() + hex_digits(uuid as nat),
{
    let mut digits: Vec<char> = Vec::new();
    push_hex_digits(&mut digits, uuid);
    assert(digits@ == hex_digits(uuid as nat));
    let mut id = String::new();
    push_char(&mut id, 't');
    push_char(&mut id, 'a');
    push_char(&mut id, 's');
    push_char(&mut id, 'i');
    push_char(&mut id, 'n');
    push_char(&mut id, 'p');
    push_char(&mut id, 'u');
    push_char(&mut id, 't');
    push_char(&mut id, '-');
    assert(id@ == socket_id_prefix());
    let ghost padded = zero_padded(hex_digits(uuid as nat), 16);
    let mut pad: usize = 0;
    let n_pad: usize = if digits.len() < 16 { 16 - digits.len() } else { 0 };
    while pad < n_pad
        invariant
            pad <= n_pad,
            n_pad == (if digits@.len() < 16 { 16 - digits@.len() } else { 0 }),
            id@ == socket_id_prefix() + Seq::new(pad as nat, |i: int| '0'),
        decreases n_pad - pad,
    {
        push_char(&mut id, '0');
        pad = pad + 1;
        assert(id@ == socket_id_prefix() + Seq::new(pad as nat, |i: int| '0'));
    }
    let mut k: usize = 0;
    while k < digits.len()
        invariant
            k <= digits@.len(),
            digits@ == hex_digits(uuid as nat),
            id@ == socket_id_prefix() + Seq::new(n_pad as nat, |i: int| '0') + digits@.take(k as int),
        decreases digits@.len() - k,
    {
        push_char(&mut id, digits[k]);
        k = k + 1;
        assert(digits@.take(k as int) == digits@.take((k - 1) as int).push(digits@[k - 1]));
    }
    assert(digits@.take(k as int) == digits@);
    assert(zero_padded(hex_digits(uuid as nat), 16) == Seq::new(n_pad as nat, |i: int| '0') + digits@);
    proof {
        socket_id_format(uuid);
    }
    id
}

/// The number that `bytes` denote read little-endian (first byte least significant).
pub open spec fn le_bytes_value(bytes: Seq<u8>) -> nat
    decreases bytes.len(),
{
    if bytes.len() == 0 {
        0
    } else {
        (bytes[0] + 256 * le_bytes_value(bytes.drop_first())) as nat
    }
}

#[verifier::external_type_specification]
#[verifier::external_body]
pub struct ExIoError(std::io::Error);

#[verifier::external_type_specification]
#[verifier::external_body]
pub struct ExSocketName<'a>(Name<'a>);

/// The socket of a bridge endpoint: its identifier, and the namespaced
/// local-socket name that was made from that identifier. Only the name
/// conversion below builds one, so the name always belongs to the identifier.
pub struct EndpointSocket {
    id: String,
    name: Name<'static>,
}

impl View for EndpointSocket {
    type V = Seq<char>;

    /// The identifier (the name is opaque; it is the conversion of this identifier).
    closed spec fn view(&self) -> Seq<char> {
        self.id@
    }
}

impl EndpointSocket {
    /// The socket identifier.
    pub fn id(&self) -> (id: &String)
        ensures
            id@ == self@,
    {
        &self.id
    }

    /// The identifier and the name made from it.
    pub fn into_parts(self) -> (parts: (String, Name<'static>))
        ensures
            parts.0@ == self@,
    {
        (self.id, self.name)
    }
}

/// Sixteen bytes from the operating system's random source, through rand's
/// `OsRng` and `RngCore::try_fill_bytes`; an error of the source is turned
/// into an `io::Error` by rand's own conversion. Nothing is promised of the
/// bytes, nor of whether the source succeeds.
#[verifier::external_body]
fn os_random_bytes() -> (r: std::io::Result<[u8; 16]>) {
    let mut bytes = [0u8; 16];
    match rand::RngCore::try_fill_bytes(&mut rand::rngs::OsRng, &mut bytes) {
        Ok(()) => Ok(bytes),
        Err(e) => Err(e.into()),
    }
}

/// `u128::from_ne_bytes`: the bytes read in the machine's byte order, so
/// either little-endian or big-endian.
#[verifier::external_body]
fn u128_from_native_bytes(bytes: [u8; 16]) -> (v: u128)
    ensures
        v == le_bytes_value(bytes@) || v == le_bytes_value(bytes@.reverse()),
{
    u128::from_ne_bytes(bytes)
}

/// interprocess's `ToNsName::to_ns_name` with the `GenericNamespaced` name
/// type, on a copy of `id`; on success the identifier and the name made from
/// it are kept together. What the name looks like depends on the platform (an
/// abstract-namespace socket on Linux, a name under a special directory on
/// other Unix systems, a named pipe on Windows) and is left unsaid. What is
/// stated: the socket holds `id`, and an identifier without a NUL character
/// converts on every platform (Linux takes any bytes; the other Unix systems
/// and Windows refuse only interior NULs).
#[verifier::external_body]
fn namespaced_socket(id: String) -> (r: std::io::Result<EndpointSocket>)
    ensures
        r matches Ok(socket) ==> socket@ == id@,
        !id@.contains('\0') ==> r is Ok,
{
    match id.clone().to_ns_name::<GenericNamespaced>() {
        Ok(name) => Ok(EndpointSocket { id, name }),
        Err(e) => Err(e),
    }
}

/// The socket identifier made from sixteen bytes read in the machine's byte
/// order.
pub open spec fn socket_id_from_bytes(bytes: Seq<u8>, id: Seq<char>) -> bool {
    exists|v: u128|
        (v == le_bytes_value(bytes) || v == le_bytes_value(bytes.reverse())) && id
            == socket_id_of(v)
}

/// No socket identifier holds a NUL character.
pub proof fn lemma_socket_id_has_no_nul(uuid: u128)
    ensures
        !socket_id_of(uuid).contains('\0'),
{
    lemma_hex_digits_no_nul(uuid as nat);
    let d = hex_digits(uuid as nat);
    let id = socket_id_of(uuid);
    assert forall|i: int| 0 <= i < id.len() implies id[i] != '\0' by {
        if i >= 9 {
            if d.len() < 16 {
                let k = 16 - d.len();
                if i - 9 >= k {
                    assert(id[i] == d[i - 9 - k]);
                }
            } else {
                assert(id[i] == d[i - 9]);
            }
        }
    }
}

proof fn lemma_hex_digits_no_nul(n: nat)
    ensures
        forall|i: int| 0 <= i < hex_digits(n).len() ==> #[trigger] hex_digits(n)[i] != '\0',
    decreases n,
{
    let d = hex_digits(n);
    if n < 16 {
        assert(d[0] == hex_upper_char(n as int));
    } else {
        lemma_hex_digits_no_nul(n / 16);
        let prev = hex_digits(n / 16);
        assert(d == prev.push(hex_upper_char((n % 16) as int)));
        assert forall|i: int| 0 <= i < d.len() implies #[trigger] d[i] != '\0' by {
            if i < prev.len() {
                assert(d[i] == prev[i]);
            } else {
                assert(d[i] == hex_upper_char((n % 16) as int));
            }
        }
    }
}

/// The endpoint socket for sixteen random bytes: the bytes read in the
/// machine's byte order as a 128-bit value, its identifier, and the name made
/// from that identifier. The identifier holds no NUL character, so the name
/// conversion succeeds on every platform.
pub fn socket_for_bytes(bytes: [u8; 16]) -> (r: std::io::Result<EndpointSocket>)
    ensures
        r is Ok,
        r matches Ok(socket) ==> socket_id_from_bytes(bytes@, socket@),
{
    let uuid: u128 = u128_from_native_bytes(bytes);
    let id = socket_id_for(uuid);
    proof {
        lemma_socket_id_has_no_nul(uuid);
    }
    namespaced_socket(id)
}

/// The endpoint socket for the outcome of the random source: for bytes, the
/// socket made from them; for an error, that error.
pub fn socket_for_random(random: std::io::Result<[u8; 16]>) -> (r: std::io::Result<
    EndpointSocket,
>)
    ensures
        match random {
            Ok(bytes) => r matches Ok(socket) && socket_id_from_bytes(bytes@, socket@),
            Err(e) => r == Err::<EndpointSocket, std::io::Error>(e),
        },
{
    match random {
        Ok(bytes) => socket_for_bytes(bytes),
        Err(e) => Err(e),
    }
}

/// The socket of a new bridge endpoint, from sixteen bytes of the operating
/// system's random source; an error of that source is passed on.
pub fn endpoint_socket() -> (r: std::io::Result<EndpointSocket>)
    ensures
        r matches Ok(socket) ==> exists|uuid: u128| socket@ == socket_id_of(uuid),
{
    socket_for_random(os_random_bytes())
}

} // verus!
