use vstd::prelude::*;
use vstd::utf8::{decode_utf8, valid_utf8};

verus! {

/// A client's login: the account it names and the token that proves it.
#[derive(Debug, Clone, PartialEq, Eq)]
pub struct LoginRequest {
    pub account_id: String,
    pub token: String,
}

/// Why a login frame was refused.
#[derive(Debug, Clone, Copy, PartialEq, Eq)]
pub enum LoginParseError {
    /// A length prefix or the bytes it announces run past the end of the frame.
    Truncated,
    /// The account names no inline token and no token field follows it.
    MissingToken,
    /// The account id or the token is not UTF-8.
    InvalidUtf8,
}

/// The big-endian `u16` at `data[at..at + 2]`.
pub open spec fn be_u16(data: Seq<u8>, at: int) -> int {
    data[at] as int * 256 + data[at + 1] as int
}

/// A length-prefixed field `[len: u16 BE][len bytes]` that starts at `at`:
/// its bytes and where the next field starts, or `None` when it overruns `data`.
pub open spec fn field_at(data: Seq<u8>, at: int) -> Option<(Seq<u8>, int)> {
    if at + 2 <= data.len() && at + 2 + be_u16(data, at) <= data.len() {
        let end = at + 2 + be_u16(data, at);
        Some((data.subrange(at + 2, end), end))
    } else {
        None
    }
}

/// Where the first `#` of `s` stands, if anywhere.
pub open spec fn first_hash(s: Seq<u8>) -> Option<int> {
    if exists|i: int| 0 <= i < s.len() && s[i] == 0x23u8 {
        Some(choose|i: int| 0 <= i < s.len() && s[i] == 0x23u8 && forall|j: int| 0 <= j < i ==> s[j] != 0x23u8)
    } else {
        None
    }
}

/// The account id and token bytes of a login frame. The first field is the
/// account; when it holds a `#`, the part before the first `#` is the account id
/// and the part after it the token. Otherwise the token is the next field.
pub open spec fn login_fields(data: Seq<u8>) -> Result<(Seq<u8>, Seq<u8>), LoginParseError> {
    match field_at(data, 0) {
        None => Err(LoginParseError::Truncated),
        Some((account, next)) => match first_hash(account) {
            Some(h) => Ok((account.subrange(0, h), account.subrange(h + 1, account.len() as int))),
            None => if next == data.len() {
                Err(LoginParseError::MissingToken)
            } else {
                match field_at(data, next) {
                    None => Err(LoginParseError::Truncated),
                    Some((token, _)) => Ok((account, token)),
                }
            },
        },
    }
}

/// What `parse_login_request` gives: the fields decoded as UTF-8.
pub open spec fn parse_login_spec(data: Seq<u8>) -> Result<(Seq<char>, Seq<char>), LoginParseError> {
    match login_fields(data) {
        Err(e) => Err(e),
        Ok((a, t)) => if valid_utf8(a) && valid_utf8(t) {
            Ok((decode_utf8(a), decode_utf8(t)))
        } else {
            Err(LoginParseError::InvalidUtf8)
        },
    }
}

/// `String::from_utf8(bytes).ok()`: the string the bytes encode, if they are UTF-8.
#[verifier::external_body]
fn utf8_string(bytes: Vec<u8>) -> (res: Option<String>)
    ensures
        res is Some <==> valid_utf8(bytes@),
        res matches Some(s) ==> s@ == decode_utf8(bytes@),
{
    String::from_utf8(bytes).ok()
}

/// `data[from..to]` as a vector.
fn copy_range(data: &[u8], from: usize, to: usize) -> (out: Vec<u8>)
    requires
        from <= to <= data@.len(),
    ensures
        out@ == data@.subrange(from as int, to as int),
{
    let mut out: Vec<u8> = Vec::new();
    let mut i = from;
    while i < to
        invariant
            from <= i <= to <= data@.len(),
            out@ == data@.subrange(from as int, i as int),
        decreases to - i,
    {
        out.push(data[i]);
        assert(data@.subrange(from as int, i + 1) =~= data@.subrange(from as int, i as int).push(
            data@[i as int],
        ));
        i = i + 1;
    }
    out
}

/// The field that starts at `at`, as (start of its bytes, end).
fn read_field(data: &[u8], at: usize) -> (res: Option<(usize, usize)>)
    requires
        at <= data@.len(),
    ensures
        match field_at(data@, at as int) {
            Some((bytes, end)) => res matches Some((s, e)) && s == at + 2 && e == end
                && bytes == data@.subrange(s as int, e as int),
            None => res is None,
        },
{
    if data.len() - at < 2 {
        return None;
    }
    let len = (data[at] as usize) * 256 + data[at + 1] as usize;
    if data.len() - at - 2 < len {
        return None;
    }
    Some((at + 2, at + 2 + len))
}

/// Where the first `#` of `data[from..to]` stands, relative to `from`.
fn find_hash(data: &[u8], from: usize, to: usize) -> (res: Option<usize>)
    requires
        from <= to <= data@.len(),
    ensures
        res matches Some(i) ==> i < to - from && first_hash(data@.subrange(from as int, to as int))
            == Some(i as int),
        res is None ==> first_hash(data@.subrange(from as int, to as int)) is None,
{
    let ghost s = data@.subrange(from as int, to as int);
    let mut i = from;
    while i < to
        invariant
            from <= i <= to <= data@.len(),
            s == data@.subrange(from as int, to as int),
            forall|j: int| 0 <= j < i - from ==> s[j] != 0x23u8,
        decreases to - i,
    {
        if data[i] == 0x23 {
            let k = i - from;
            assert(s[k as int] == 0x23u8);
            assert(exists|x: int| 0 <= x < s.len() && s[x] == 0x23u8);
            let ghost c = choose|x: int| 0 <= x < s.len() && s[x] == 0x23u8 && forall|j: int| 0 <= j < x ==> s[j] != 0x23u8;
            assert(0 <= k < s.len() && s[k as int] == 0x23u8 && forall|j: int| 0 <= j < k ==> s[j] != 0x23u8);
            assert(c == k) by {
                if c < k {
                    assert(s[c] != 0x23u8);
                } else if c > k {
                    assert(s[k as int] != 0x23u8);
                }
            }
            return Some(k);
        }
        i = i + 1;
    }
    None
}

/// Reads a login frame: the account field, then either an inline `#` token in it
/// or a token field after it.
pub fn parse_login_request(data: &[u8]) -> (res: Result<LoginRequest, LoginParseError>)
    ensures
        match parse_login_spec(data@) {
            Ok((a, t)) => res matches Ok(r) && r.account_id@ == a && r.token@ == t,
            Err(e) => res == Err::<LoginRequest, LoginParseError>(e),
        },
{
    let (start, end) = match read_field(data, 0) {
        Some(f) => f,
        None => return Err(LoginParseError::Truncated),
    };
    let ghost account = data@.subrange(start as int, end as int);
    let (account_bytes, token_bytes) = match find_hash(data, start, end) {
        Some(h) => {
            assert(data@.subrange(start as int, start + h) =~= account.subrange(0, h as int));
            assert(data@.subrange(start + h + 1, end as int) =~= account.subrange(
                h + 1,
                account.len() as int,
            ));
            (copy_range(data, start, start + h), copy_range(data, start + h + 1, end))
        },
        None => {
            if end == data.len() {
                return Err(LoginParseError::MissingToken);
            }
            match read_field(data, end) {
                Some((ts, te)) => (copy_range(data, start, end), copy_range(data, ts, te)),
                None => return Err(LoginParseError::Truncated),
            }
        },
    };
    let account_id = utf8_string(account_bytes);
    let token = utf8_string(token_bytes);
    match (account_id, token) {
        (Some(account_id), Some(token)) => Ok(LoginRequest { account_id, token }),
        _ => Err(LoginParseError::InvalidUtf8),
    }
}

/// The big-endian bytes of `v`, most significant first.
pub open spec fn be_u64_bytes(v: u64) -> Seq<u8> {
    Seq::new(8, |i: int| ((v as int / pow256(7 - i)) % 256) as u8)
}

pub open spec fn pow256(k: int) -> int
    decreases k,
{
    if k <= 0 {
        1
    } else {
        256 * pow256(k - 1)
    }
}

proof fn lemma_pow256_positive(k: int)
    ensures
        pow256(k) >= 1,
    decreases k,
{
    if k > 0 {
        lemma_pow256_positive(k - 1);
    }
}

/// The login reply body: a zero result code (two bytes), then the player id as a
/// big-endian `u64`.
pub fn login_reply_payload(player_id: u64) -> (out: Vec<u8>)
    ensures
        out@ == seq![0u8, 0u8] + be_u64_bytes(player_id),
{
    let mut out: Vec<u8> = Vec::new();
    out.push(0);
    out.push(0);
    let mut k: usize = 0;
    let mut div: u64 = 0x0100_0000_0000_0000;
    assert(pow256(7) == 0x0100_0000_0000_0000) by {
        reveal_with_fuel(pow256, 8);
    }
    while k < 8
        invariant
            k <= 8,
            k < 8 ==> div as int == pow256(7 - k),
            div >= 1,
            out@ == seq![0u8, 0u8] + be_u64_bytes(player_id).take(k as int),
        decreases 8 - k,
    {
        let byte = ((player_id / div) % 256) as u8;
        assert(be_u64_bytes(player_id).take(k + 1) =~= be_u64_bytes(player_id).take(k as int).push(
            byte,
        ));
        out.push(byte);
        if k < 7 {
            proof {
                lemma_pow256_positive(6 - k as int);
            }
            assert(pow256(7 - k) == 256 * pow256(7 - k - 1));
            div = div / 256;
        }
        k = k + 1;
    }
    assert(be_u64_bytes(player_id).take(8) =~= be_u64_bytes(player_id));
    out
}

} // verus!
