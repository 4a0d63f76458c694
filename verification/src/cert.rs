//! TLS certificate digests (32 bytes), and `Tx2Cert`, a digest kept with its
//! base64 text and a short nickname for debugging.

use base64::Engine;
use std::sync::Arc;
use vstd::prelude::*;
use vstd::std_specs::cmp::PartialEqSpec;
use vstd::string::*;

verus! {

/// 32 byte binary TLS certificate digest.
#[derive(Clone, Copy, Debug, Eq, Hash, PartialOrd, Ord)]
pub struct CertDigest(pub [u8; 32]);

/// Whether two byte arrays hold the same bytes.
fn bytes_eq(a: &[u8; 32], b: &[u8; 32]) -> (r: bool)
    ensures
        r == (a@ == b@),
{
    let mut i: usize = 0;
    while i < 32
        invariant
            i <= 32,
            forall|j: int| 0 <= j < i ==> a@[j] == b@[j],
        decreases 32 - i,
    {
        if a[i] != b[i] {
            return false;
        }
        i = i + 1;
    }
    assert(a@ =~= b@);
    true
}

impl PartialEq for CertDigest {
    fn eq(&self, other: &Self) -> (r: bool) {
        bytes_eq(&self.0, &other.0)
    }
}

impl vstd::std_specs::cmp::PartialEqSpecImpl for CertDigest {
    open spec fn obeys_eq_spec() -> bool {
        true
    }

    open spec fn eq_spec(&self, other: &Self) -> bool {
        self.0@ == other.0@
    }
}

/// Extension trait for working with CertDigests.
pub trait CertDigestExt: Sized {
    /// The bytes of the digest.
    spec fn digest_bytes(&self) -> Seq<u8>;

    /// Construct from a slice. Panicks if `slice.len() != 32`.
    fn from_slice(slice: &[u8]) -> (d: Self)
        requires
            slice@.len() == 32,
        ensures
            d.digest_bytes() == slice@,
    ;
}

impl CertDigestExt for CertDigest {
    open spec fn digest_bytes(&self) -> Seq<u8> {
        self.0@
    }

    fn from_slice(slice: &[u8]) -> (d: Self) {
        let mut out = [0u8; 32];
        let mut i: usize = 0;
        while i < 32
            invariant
                slice@.len() == 32,
                i <= 32,
                forall|j: int| 0 <= j < i ==> out@[j] == slice@[j],
            decreases 32 - i,
        {
            out[i] = slice[i];
            i = i + 1;
        }
        assert(out@ =~= slice@);
        CertDigest(out)
    }
}

/// The lexicographic comparison of two byte strings: -1 where `a` comes
/// first, 0 where they are the same, 1 where `b` comes first.
pub open spec fn lex_sign(a: Seq<u8>, b: Seq<u8>) -> int
    decreases a.len(),
{
    if a.len() == 0 {
        if b.len() == 0 {
            0
        } else {
            -1
        }
    } else if b.len() == 0 {
        1
    } else if a[0] < b[0] {
        -1
    } else if a[0] > b[0] {
        1
    } else {
        lex_sign(a.drop_first(), b.drop_first())
    }
}

/// The lexicographic comparison of two digests' bytes.
pub fn digest_compare(a: &[u8; 32], b: &[u8; 32]) -> (r: i8)
    ensures
        r == lex_sign(a@, b@),
{
    let mut i: usize = 0;
    assert(a@.skip(0) =~= a@);
    assert(b@.skip(0) =~= b@);
    while i < 32
        invariant
            i <= 32,
            a@.len() == 32,
            b@.len() == 32,
            lex_sign(a@, b@) == lex_sign(a@.skip(i as int), b@.skip(i as int)),
        decreases 32 - i,
    {
        assert(a@.skip(i as int)[0] == a@[i as int]);
        assert(b@.skip(i as int)[0] == b@[i as int]);
        if a[i] < b[i] {
            return -1;
        }
        if a[i] > b[i] {
            return 1;
        }
        assert(a@.skip(i as int).drop_first() =~= a@.skip(i + 1));
        assert(b@.skip(i as int).drop_first() =~= b@.skip(i + 1));
        i = i + 1;
    }
    assert(a@.skip(32) =~= Seq::<u8>::empty());
    assert(b@.skip(32) =~= Seq::<u8>::empty());
    0
}

/// Two byte strings compare 0 exactly when they are the same, and swapping
/// them negates their comparison.
pub proof fn lemma_lex_sign(a: Seq<u8>, b: Seq<u8>)
    ensures
        (lex_sign(a, b) == 0) <==> (a == b),
        lex_sign(b, a) == -lex_sign(a, b),
        -1 <= lex_sign(a, b) <= 1,
    decreases a.len(),
{
    if a.len() > 0 && b.len() > 0 {
        lemma_lex_sign(a.drop_first(), b.drop_first());
        if a[0] == b[0] && a.drop_first() == b.drop_first() {
            assert(a =~= seq![a[0]] + a.drop_first());
            assert(b =~= seq![b[0]] + b.drop_first());
        }
        if a == b {
            assert(a.drop_first() == b.drop_first());
        }
    } else if a.len() == 0 && b.len() == 0 {
        assert(a =~= b);
    }
}

/// The first position at which two byte strings differ decides their
/// comparison: where `a` and `b` agree before position `i` and the byte of `a`
/// at `i` is the smaller (as an unsigned byte), `a` comes first.
pub proof fn lemma_lex_sign_first_difference(a: Seq<u8>, b: Seq<u8>, i: int)
    requires
        0 <= i < a.len(),
        i < b.len(),
        forall|j: int| 0 <= j < i ==> a[j] == b[j],
        a[i] < b[i],
    ensures
        lex_sign(a, b) == -1,
        lex_sign(b, a) == 1,
    decreases i,
{
    if i > 0 {
        assert(a[0] == b[0]);
        assert forall|j: int| 0 <= j < i - 1 implies a.drop_first()[j] == b.drop_first()[j] by {
            assert(a[j + 1] == b[j + 1]);
        }
        lemma_lex_sign_first_difference(a.drop_first(), b.drop_first(), i - 1);
    }
}

/// The URL-safe base64 text, without padding, of `bytes`.
pub uninterp spec fn base64_url_safe_no_pad(bytes: Seq<u8>) -> Seq<char>;

/// Whether `c` is in the URL-safe base64 alphabet.
pub open spec fn is_url_safe_base64_char(c: char) -> bool {
    ('A' <= c <= 'Z') || ('a' <= c <= 'z') || ('0' <= c <= '9') || c == '-' || c == '_'
}

/// `base64::prelude::BASE64_URL_SAFE_NO_PAD.encode`: the URL-safe base64
/// text of `bytes` without padding. The contract names that text, and states
/// what the crate documents of it: four characters for each three bytes,
/// rounded up (`base64::encoded_len` without padding), all from the URL-safe
/// alphabet `A-Z a-z 0-9 - _`. The call panics where that length does not
/// fit in a `usize`, which `requires` rules out.
#[verifier::external_body]
fn encode_url_safe_no_pad(bytes: &[u8]) -> (s: String)
    requires
        bytes@.len() <= usize::MAX / 4,
    ensures
        s@ == base64_url_safe_no_pad(bytes@),
        s@.len() == (4 * bytes@.len() + 2) / 3,
        forall|i: int| 0 <= i < s@.len() ==> is_url_safe_base64_char(#[trigger] s@[i]),
{
    base64::prelude::BASE64_URL_SAFE_NO_PAD.encode(bytes)
}

/// The nickname of a base64 text: its first six characters, `..`, and its
/// last six characters.
pub open spec fn nick_text(b64: Seq<char>) -> Seq<char> {
    b64.take(6) + seq!['.', '.'] + b64.skip(b64.len() - 6)
}

/// The nickname of the base64 text `b64`.
pub fn nick_of(b64: &str) -> (nick: String)
    requires
        vstd::utf8::is_ascii_chars(b64@),
        b64@.len() >= 6,
    ensures
        nick@ == nick_text(b64@),
{
    proof {
        reveal_strlit("..");
    }
    let len = b64.unicode_len();
    let mut nick = b64.substring_ascii(0, 6).to_owned();
    nick.append("..");
    nick.append(b64.substring_ascii(len - 6, len));
    assert(b64@.skip(len - 6) =~= b64@.subrange(len - 6, len as int));
    nick
}

/// Wrapper around CertDigest that provides some additional debugging helpers:
/// the digest, its base64 text, and the nickname of that text. The text and
/// nickname are always those of the digest, so two certs with one digest are
/// the same in every field.
#[derive(Ord)]
pub struct Tx2Cert(Arc<(CertDigest, String, String)>);

/// The text of a `Tx2Cert` built from `digest`.
pub open spec fn cert_text(digest: CertDigest) -> Seq<char> {
    base64_url_safe_no_pad(digest.0@)
}

impl Tx2Cert {
    /// The digest of this cert.
    pub closed spec fn digest(&self) -> CertDigest {
        self.0.0
    }

    /// The base64 text of this cert.
    pub closed spec fn text(&self) -> Seq<char> {
        self.0.1@
    }

    /// The nickname of this cert.
    pub closed spec fn nick(&self) -> Seq<char> {
        self.0.2@
    }

    /// Whether the text is the URL-safe base64 text of the digest (43
    /// characters, all from the URL-safe alphabet) and the nickname is that of
    /// the text. Every cert is well formed.
    pub open spec fn wf(&self) -> bool {
        &&& self.text() == cert_text(self.digest())
        &&& self.text().len() == 43
        &&& forall|i: int| 0 <= i < self.text().len() ==> is_url_safe_base64_char(#[trigger] self.text()[i])
        &&& self.nick() == nick_text(self.text())
    }

    /// Every cert is well formed.
    #[verifier::type_invariant]
    spec fn inv(self) -> bool {
        self.wf()
    }

    /// get the tls cert digest
    pub fn as_digest(&self) -> (d: &CertDigest)
        ensures
            *d == self.digest(),
            self.wf(),
    {
        proof {
            use_type_invariant(self);
        }
        &self.0.0
    }

    /// get the cert bytes
    pub fn as_bytes(&self) -> (b: &[u8])
        ensures
            b@ == self.digest().0@,
            self.wf(),
    {
        proof {
            use_type_invariant(self);
        }
        self.0.0.0.as_slice()
    }

    /// get the base64 representation
    pub fn as_str(&self) -> (s: &str)
        ensures
            s@ == self.text(),
            self.wf(),
    {
        proof {
            use_type_invariant(self);
        }
        self.0.1.as_str()
    }

    /// get the base64 nickname
    pub fn as_nick(&self) -> (s: &str)
        ensures
            s@ == self.nick(),
            self.wf(),
    {
        proof {
            use_type_invariant(self);
        }
        self.0.2.as_str()
    }

    /// The debug text of this cert: `Cert(` the nickname `)`.
    pub fn to_debug_string(&self) -> (s: String)
        ensures
            s@ == "Cert("@ + self.nick() + ")"@,
    {
        let mut s = String::from_str("Cert(");
        s.append(self.0.2.as_str());
        s.append(")");
        s
    }

    /// Build a cert from a vector of 32 bytes. Panicks if `v.len() != 32`.
    pub fn from_vec(v: Vec<u8>) -> (c: Self)
        requires
            v@.len() == 32,
        ensures
            c.digest().0@ == v@,
            c.wf(),
    {
        Self::from_arc_vec(Arc::new(v))
    }

    /// Build a cert from a shared vector of 32 bytes. Panicks if
    /// `v.len() != 32`.
    pub fn from_arc_vec(v: Arc<Vec<u8>>) -> (c: Self)
        requires
            v@.len() == 32,
        ensures
            c.digest().0@ == v@,
            c.wf(),
    {
        let d = CertDigest::from_slice(v.as_slice());
        Tx2Cert::from(d)
    }
}

impl From<CertDigest> for Tx2Cert {
    fn from(c: CertDigest) -> (r: Self)
        ensures
            r.digest() == c,
            r.wf(),
    {
        let b64 = encode_url_safe_no_pad(c.0.as_slice());
        assert(vstd::utf8::is_ascii_chars(b64@)) by {
            assert forall|i: int| 0 <= i < b64@.len() implies '\0' <= #[trigger] b64@[i] <= '\u{7f}' by {
                assert(is_url_safe_base64_char(b64@[i]));
            }
        }
        let nick = nick_of(b64.as_str());
        Tx2Cert(Arc::new((c, b64, nick)))
    }
}

impl vstd::std_specs::convert::FromSpecImpl<CertDigest> for Tx2Cert {
    /// The result is the well-formed cert of digest `c`; since its strings are
    /// not known to be one value from their characters alone, `from` states its
    /// result itself.
    open spec fn obeys_from_spec() -> bool {
        false
    }

    open spec fn from_spec(c: CertDigest) -> Self {
        choose|t: Tx2Cert| t.digest() == c && t.wf()
    }
}


impl From<&CertDigest> for Tx2Cert {
    fn from(c: &CertDigest) -> (r: Self)
        ensures
            r.digest() == *c,
            r.wf(),
    {
        Tx2Cert::from(*c)
    }
}

impl vstd::std_specs::convert::FromSpecImpl<&CertDigest> for Tx2Cert {
    /// As for an owned digest, what the result holds is stated on `from`.
    open spec fn obeys_from_spec() -> bool {
        false
    }

    open spec fn from_spec(c: &CertDigest) -> Self {
        choose|t: Tx2Cert| t.digest() == *c && t.wf()
    }
}

impl From<Tx2Cert> for CertDigest {
    fn from(d: Tx2Cert) -> (r: Self) {
        d.0.0
    }
}

impl vstd::std_specs::convert::FromSpecImpl<Tx2Cert> for CertDigest {
    open spec fn obeys_from_spec() -> bool {
        true
    }

    open spec fn from_spec(d: Tx2Cert) -> Self {
        d.digest()
    }
}

impl From<&Tx2Cert> for CertDigest {
    fn from(d: &Tx2Cert) -> (r: Self) {
        d.0.0
    }
}

impl vstd::std_specs::convert::FromSpecImpl<&Tx2Cert> for CertDigest {
    open spec fn obeys_from_spec() -> bool {
        true
    }

    open spec fn from_spec(d: &Tx2Cert) -> Self {
        d.digest()
    }
}

impl PartialEq for Tx2Cert {
    fn eq(&self, oth: &Self) -> (r: bool) {
        self.0.0.eq(&oth.0.0)
    }
}

impl vstd::std_specs::cmp::PartialEqSpecImpl for Tx2Cert {
    open spec fn obeys_eq_spec() -> bool {
        true
    }

    open spec fn eq_spec(&self, other: &Self) -> bool {
        self.digest().0@ == other.digest().0@
    }
}

impl Eq for Tx2Cert {
}

impl Clone for Tx2Cert {
    fn clone(&self) -> (c: Self)
        ensures
            c == *self,
    {
        proof {
            use_type_invariant(self);
        }
        Tx2Cert(Arc::new((self.0.0, self.0.1.clone(), self.0.2.clone())))
    }
}

/// `Hash::hash` of an array: feeds the array's items to the hasher. Nothing is
/// promised of the hasher's state afterwards.
pub assume_specification<T: core::hash::Hash, const N: usize, H: core::hash::Hasher>[ <[T; N] as core::hash::Hash>::hash::<H> ](
    a: &[T; N],
    state: &mut H,
);

impl core::hash::Hash for Tx2Cert {
    fn hash<H: core::hash::Hasher>(&self, state: &mut H) {
        self.0.0.0.hash(state);
    }
}

impl core::ops::Deref for Tx2Cert {
    type Target = CertDigest;

    fn deref(&self) -> (d: &CertDigest)
        ensures
            *d == self.digest(),
    {
        &self.0.0
    }
}

/// The bytes of a byte slice.
pub open spec fn slice_bytes(b: &[u8]) -> Seq<u8> {
    b@
}

/// The characters of a string slice.
pub open spec fn str_chars(s: &str) -> Seq<char> {
    s@
}

impl core::convert::AsRef<CertDigest> for Tx2Cert {
    fn as_ref(&self) -> &CertDigest
        returns
            &self.digest(),
    {
        &self.0.0
    }
}

impl core::convert::AsRef<[u8]> for Tx2Cert {
    fn as_ref(&self) -> (b: &[u8])
        ensures
            slice_bytes(b) == self.digest().0@,
    {
        self.0.0.0.as_slice()
    }
}

impl core::convert::AsRef<str> for Tx2Cert {
    fn as_ref(&self) -> (t: &str)
        ensures
            str_chars(t) == self.text(),
    {
        self.0.1.as_str()
    }
}

/// A peer's 32 byte node certificate, carried here as an opaque value.
#[verifier::external_type_specification]
#[verifier::external_body]
pub struct ExNodeCert(kitsune_p2p_bin_data::NodeCert);

/// The node certificate holding `bytes`, as `NodeCert::from` builds it.
pub uninterp spec fn node_cert_of(bytes: Seq<u8>) -> kitsune_p2p_bin_data::NodeCert;

/// `NodeCert::from` (of a shared 32 byte array): the node certificate that
/// holds `bytes`. The contract only names it, since a `NodeCert` is opaque
/// here.
#[verifier::external_body]
fn node_cert_from_bytes(bytes: [u8; 32]) -> (n: kitsune_p2p_bin_data::NodeCert)
    ensures
        n == node_cert_of(bytes@),
{
    kitsune_p2p_bin_data::NodeCert::from(Arc::new(bytes))
}

impl From<Tx2Cert> for kitsune_p2p_bin_data::NodeCert {
    fn from(f: Tx2Cert) -> (n: Self) {
        node_cert_from_bytes(f.0.0.0)
    }
}

impl vstd::std_specs::convert::FromSpecImpl<Tx2Cert> for kitsune_p2p_bin_data::NodeCert {
    open spec fn obeys_from_spec() -> bool {
        true
    }

    open spec fn from_spec(f: Tx2Cert) -> Self {
        node_cert_of(f.digest().0@)
    }
}


/// Turning a cert back into a digest gives the digest it was built from,
/// owned or borrowed.
pub proof fn lemma_digest_round_trip(d: CertDigest, t: Tx2Cert)
    requires
        t.digest() == d,
    ensures
        <CertDigest as vstd::std_specs::convert::FromSpec<Tx2Cert>>::from_spec(t) == d,
        <CertDigest as vstd::std_specs::convert::FromSpec<&Tx2Cert>>::from_spec(&t) == d,
{
}

/// The nickname of a well-formed cert (as every cert is) is 14 characters
/// long: the first six characters of its 43 character text, `..`, and the
/// last six.
pub proof fn lemma_nick_shape(t: Tx2Cert)
    requires
        t.wf(),
    ensures
        t.nick().len() == 14,
        t.nick().take(6) == t.text().take(6),
        t.nick()[6] == '.' && t.nick()[7] == '.',
        t.nick().skip(8) == t.text().skip(37),
{
    assert(t.nick().take(6) =~= t.text().take(6));
    assert(t.nick().skip(8) =~= t.text().skip(37));
}

/// Equality of digests, and of certs, is an equivalence: reflexive,
/// symmetric and transitive.
pub proof fn lemma_eq_is_equivalence(d: CertDigest, t: Tx2Cert)
    ensures
        vstd::laws_eq::obeys_eq_spec_properties::<CertDigest>(),
        vstd::laws_eq::obeys_eq_spec_properties::<Tx2Cert>(),
        d.eq_spec(&d),
        t.eq_spec(&t),
{
    reveal(vstd::laws_eq::obeys_eq_spec_properties);
}

} // verus!
