//! Login and password, and their framing on the wire: a length byte and the
//! login, then a length byte and the password.

use vstd::prelude::*;
use crate::external::{buffer_bytes, buffer_contents, put_slice, put_u8};

verus! {

/// Holds login and password information.
#[derive(Clone, Debug)]
pub struct Credentials {
    pub login: Vec<u8>,
    pub password: Vec<u8>,
}

/// The bytes that frame a login and a password: each preceded by its length
/// taken modulo 256, as a single byte.
pub open spec fn credentials_encoding(login: Seq<u8>, password: Seq<u8>) -> Seq<u8> {
    seq![login.len() as u8] + login + seq![password.len() as u8] + password
}

/// The login that framed bytes hold: as many bytes as the first byte says,
/// or all that follow it when there are fewer.
pub open spec fn framed_login(buf: Seq<u8>) -> Seq<u8> {
    let n = buf[0] as int;
    if 1 + n <= buf.len() {
        buf.subrange(1, 1 + n)
    } else {
        buf.subrange(1, buf.len() as int)
    }
}

/// The password that framed bytes hold: the length byte follows the login,
/// and the password is as many bytes as it says, or all that are left.
pub open spec fn framed_password(buf: Seq<u8>) -> Seq<u8> {
    let start: int = 1 + framed_login(buf).len() as int;
    let n = buf[start] as int;
    if start + 1 + n <= buf.len() {
        buf.subrange(start + 1, start + 1 + n)
    } else {
        buf.subrange(start + 1, buf.len() as int)
    }
}

/// How many bytes reading framed credentials consumes.
pub open spec fn framed_length(buf: Seq<u8>) -> nat {
    2 + framed_login(buf).len() + framed_password(buf).len()
}

/// Framed bytes can be read when a length byte stands where each of the two
/// is expected.
pub open spec fn framing_readable(buf: Seq<u8>) -> bool {
    buf.len() >= 1 && buf.len() >= buf[0] as int + 2
}

impl Credentials {
    /// Creates a new `Credentials` instance.
    pub fn new(login: Vec<u8>, password: Vec<u8>) -> (r: Credentials)
        ensures
            r.login@ == login@,
            r.password@ == password@,
    {
        Credentials { login, password }
    }

    /// The bytes these credentials are written as.
    pub open spec fn encoding(&self) -> Seq<u8> {
        credentials_encoding(self.login@, self.password@)
    }

    /// Appends the framed login and password to `dst`.
    pub fn write_to_bytes_mut(&self, dst: &mut bytes::BytesMut)
        requires
            buffer_contents(*old(dst)).len() + self.login@.len() + self.password@.len() + 2
                <= isize::MAX,
        ensures
            buffer_contents(*final(dst)) == buffer_contents(*old(dst)) + self.encoding(),
    {
        put_u8(dst, self.login.len() as u8);
        put_slice(dst, self.login.as_slice());
        put_u8(dst, self.password.len() as u8);
        put_slice(dst, self.password.as_slice());
        assert(buffer_contents(*dst) =~= buffer_contents(*old(dst)) + self.encoding());
    }

    /// Reads framed credentials from the front of `buf`, and says how many
    /// bytes they took. A length larger than what is left takes what is
    /// left. `buf` must hold a length byte for the login and, after the
    /// login, one for the password.
    pub fn parse_from_buf(buf: &[u8]) -> (r: (Credentials, usize))
        requires
            framing_readable(buf@),
        ensures
            r.0.login@ == framed_login(buf@),
            r.0.password@ == framed_password(buf@),
            r.1 == framed_length(buf@),
    {
        let len = buf.len();
        let login_len = buf[0] as usize;
        let login_end = if login_len < len - 1 { 1 + login_len } else { len };
        let mut login: Vec<u8> = Vec::new();
        let mut i: usize = 1;
        while i < login_end
            invariant
                1 <= i <= login_end <= len,
                len == buf@.len(),
                login@ == buf@.subrange(1, i as int),
            decreases login_end - i,
        {
            login.push(buf[i]);
            i = i + 1;
            assert(login@ =~= buf@.subrange(1, i as int));
        }
        assert(login@ =~= framed_login(buf@));
        let passw_len = buf[login_end] as usize;
        let start = login_end + 1;
        let password_end = if passw_len < len - start { start + passw_len } else { len };
        let mut password: Vec<u8> = Vec::new();
        let mut j: usize = start;
        while j < password_end
            invariant
                start <= j <= password_end <= len,
                len == buf@.len(),
                password@ == buf@.subrange(start as int, j as int),
            decreases password_end - j,
        {
            password.push(buf[j]);
            j = j + 1;
            assert(password@ =~= buf@.subrange(start as int, j as int));
        }
        assert(password@ =~= framed_password(buf@));
        (Credentials { login, password }, password_end)
    }

    /// Reads framed credentials from the front of what `buf` holds, and says
    /// how many bytes they took, as [`Credentials::parse_from_buf`] does.
    pub fn parse_from_bytes_mut(buf: &bytes::BytesMut) -> (r: (Credentials, usize))
        requires
            framing_readable(buffer_contents(*buf)),
        ensures
            r.0.login@ == framed_login(buffer_contents(*buf)),
            r.0.password@ == framed_password(buffer_contents(*buf)),
            r.1 == framed_length(buffer_contents(*buf)),
    {
        Credentials::parse_from_buf(buffer_bytes(buf))
    }

    /// The number of bytes these credentials take on the wire, including the
    /// two length bytes.
    pub fn network_size(&self) -> (r: usize)
        requires
            self.login@.len() + self.password@.len() + 2 <= usize::MAX,
        ensures
            r == self.login@.len() + self.password@.len() + 2,
    {
        self.login.len() + self.password.len() + 2
    }
}

/// The size `network_size` gives is the number of bytes
/// `write_to_bytes_mut` writes.
pub proof fn lemma_network_size_is_encoding_length(login: Seq<u8>, password: Seq<u8>)
    ensures
        credentials_encoding(login, password).len() == login.len() + password.len() + 2,
{
}

/// Reading what `write_to_bytes_mut` wrote gives back the same login and
/// password, and consumes exactly the written bytes, whatever follows them,
/// as long as neither is longer than 255 bytes.
pub proof fn lemma_credentials_round_trip(login: Seq<u8>, password: Seq<u8>, rest: Seq<u8>)
    requires
        login.len() <= 255,
        password.len() <= 255,
    ensures
        ({
            let buf = credentials_encoding(login, password) + rest;
            &&& framing_readable(buf)
            &&& framed_login(buf) == login
            &&& framed_password(buf) == password
            &&& framed_length(buf) == credentials_encoding(login, password).len()
        }),
{
    let buf = credentials_encoding(login, password) + rest;
    let nl = login.len();
    let np = password.len();
    assert(buf[0] == nl as u8);
    assert(framed_login(buf) =~= login);
    assert(buf[1 + nl as int] == np as u8);
    assert(framed_password(buf) =~= password);
}

/// Credentials written into an empty buffer are read back from it: the same
/// login and password, with all `network_size` written bytes consumed, as
/// long as neither is longer than 255 bytes. `after` is what
/// `write_to_bytes_mut` makes of the empty buffer `before`.
pub proof fn lemma_credentials_written_read_back(
    c: Credentials,
    before: bytes::BytesMut,
    after: bytes::BytesMut,
)
    requires
        c.login@.len() <= 255,
        c.password@.len() <= 255,
        buffer_contents(before) == Seq::<u8>::empty(),
        buffer_contents(after) == buffer_contents(before) + c.encoding(),
    ensures
        framing_readable(buffer_contents(after)),
        framed_login(buffer_contents(after)) == c.login@,
        framed_password(buffer_contents(after)) == c.password@,
        framed_length(buffer_contents(after)) == c.login@.len() + c.password@.len() + 2,
{
    lemma_credentials_round_trip(c.login@, c.password@, Seq::<u8>::empty());
    assert(buffer_contents(after) =~= c.encoding() + Seq::<u8>::empty());
}

} // verus!
