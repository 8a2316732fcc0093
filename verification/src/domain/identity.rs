//! Accounts, known by a keyed hash and a masked e-mail address.
use crate::digest::{hex_encode, hex_text};
use crate::text::{characters, cut, lemma_cut, pieces, split, split_once, trim, trimmed};
use hmac::Mac;
use vstd::prelude::*;
use vstd::string::*;
use vstd::utf8::encode_utf8;

verus! {

/// Why an identity could not be made.
#[derive(Clone, Copy, Debug, PartialEq, Eq, Structural)]
pub enum IdentityError {
    /// The secret must not be empty.
    EmptySecret,
    /// The address must hold exactly one `@`, with something on both sides.
    InvalidEmail,
}

/// What is kept of an e-mail address.
#[derive(Debug, PartialEq, Eq)]
pub struct HashedEmail {
    pub email_masked: String,
    pub identity_hmac: String,
}

/// A `HashedEmail` with its texts as sequences of characters.
#[verifier::ext_equal]
pub struct HashedEmailView {
    pub email_masked: Seq<char>,
    pub identity_hmac: Seq<char>,
}

impl DeepView for HashedEmail {
    type V = HashedEmailView;

    open spec fn deep_view(&self) -> HashedEmailView {
        HashedEmailView { email_masked: self.email_masked@, identity_hmac: self.identity_hmac@ }
    }
}

/// Makes identities with a secret key.
#[derive(Debug)]
pub struct IdentityHasher {
    secret: Vec<u8>,
}

/// The HMAC-SHA-256 of a message under a key.
pub uninterp spec fn hmac_sha256_of(key: Seq<u8>, message: Seq<u8>) -> Seq<u8>;

/// `hmac::Hmac<sha2::Sha256>`, which takes keys of any length: the code of the message under the
/// key is a function of the two alone, named `hmac_sha256_of`, of 32 bytes.
#[verifier::external_body]
fn hmac_sha256(key: &[u8], message: &[u8]) -> (r: Vec<u8>)
    ensures
        r@ == hmac_sha256_of(key@, message@),
        r@.len() == 32,
{
    let mut mac = <hmac::Hmac<sha2::Sha256> as Mac>::new_from_slice(key)
        .expect("keys of any length are accepted");
    mac.update(message);
    mac.finalize().into_bytes().to_vec()
}

/// A text in lower case.
pub uninterp spec fn lowercase_of(s: Seq<char>) -> Seq<char>;

/// `str::to_lowercase`: a function of the text alone, named `lowercase_of`.
#[verifier::external_body]
fn lowercase(s: &str) -> (r: String)
    ensures
        r@ == lowercase_of(s@),
{
    s.to_lowercase()
}

/// An address as it is compared: without white space at its ends, in lower case.
pub open spec fn normal_email(email: Seq<char>) -> Seq<char> {
    lowercase_of(trimmed(email))
}

/// Whether an address holds exactly one `@`, with something on both sides.
pub open spec fn is_email(email: Seq<char>) -> bool {
    let parts = pieces(email, '@');
    parts.len() == 2 && parts[0].len() > 0 && parts[1].len() > 0
}

/// The first character of a text, or `*`.
pub open spec fn first_or_star(s: Seq<char>) -> char {
    if s.len() > 0 {
        s[0]
    } else {
        '*'
    }
}

/// What is shown of an address: the first characters of its two sides, and the last label of the
/// domain where it has several.
pub open spec fn masked_email(email: Seq<char>) -> Seq<char> {
    let (local, domain) = cut(email, '@')->0;
    let labels = pieces(domain, '.');
    let prefix = seq![first_or_star(labels[0])];
    let suffix = if labels.len() >= 2 {
        prefix + "."@ + labels.last()
    } else {
        prefix + "***"@
    };
    seq![first_or_star(local)] + "***@"@ + suffix + "***"@
}

/// The hexadecimal code of an identity under a secret.
pub open spec fn fingerprint_of(secret: Seq<u8>, stable_identity: Seq<char>) -> Seq<char> {
    hex_text(hmac_sha256_of(secret, encode_utf8(stable_identity)))
}

/// What is kept of an address; none where it is not one.
pub open spec fn hashed_email(secret: Seq<u8>, email: Seq<char>) -> Option<HashedEmailView> {
    let normal = normal_email(email);
    if is_email(normal) {
        Some(
            HashedEmailView {
                email_masked: masked_email(normal),
                identity_hmac: fingerprint_of(secret, normal),
            },
        )
    } else {
        None
    }
}

/// Spellings of one address that differ in case and in white space around it are one identity.
pub proof fn lemma_identity_is_stable(secret: Seq<u8>, a: Seq<char>, b: Seq<char>)
    requires
        lowercase_of(trimmed(a)) == lowercase_of(trimmed(b)),
    ensures
        hashed_email(secret, a) == hashed_email(secret, b),
{
}

/// Of the part before the `@`, what is shown tells only the first character: addresses that agree
/// in that one and in the domain look the same.
pub proof fn lemma_mask_hides_the_local_part(a: Seq<char>, b: Seq<char>)
    requires
        is_email(a),
        is_email(b),
        a[0] == b[0],
        pieces(a, '@')[1] == pieces(b, '@')[1],
    ensures
        masked_email(a) == masked_email(b),
{
    lemma_cut(a, '@');
    lemma_cut(b, '@');
    lemma_two_pieces(a);
    lemma_two_pieces(b);
}

proof fn lemma_two_pieces(email: Seq<char>)
    requires
        is_email(email),
    ensures
        cut(email, '@') == Some((pieces(email, '@')[0], pieces(email, '@')[1])),
        pieces(email, '@')[0][0] == email[0],
{
    lemma_cut(email, '@');
    let (before, after) = cut(email, '@')->0;
    lemma_cut(after, '@');
    assert(pieces(email, '@') =~= seq![before] + pieces(after, '@'));
    assert(pieces(after, '@').len() == 1);
    if cut(after, '@') is Some {
        let rest = (cut(after, '@')->0).1;
        assert(pieces(rest, '@').len() > 0);
    }
    assert(pieces(after, '@')[0] == after);
}

fn first_character(s: &str) -> (r: char)
    ensures
        r == first_or_star(s@),
{
    let v = characters(s);
    if v.len() > 0 {
        v[0]
    } else {
        '*'
    }
}

/// An address in lower case and without white space at its ends, if it is one.
pub fn check_email(normal: String) -> (r: Result<String, IdentityError>)
    ensures
        match r {
            Ok(email) => is_email(normal@) && email@ == normal@,
            Err(error) => !is_email(normal@) && error == IdentityError::InvalidEmail,
        },
{
    let parts = split(normal.as_str(), '@');
    assert(parts.deep_view() == pieces(normal@, '@'));
    if parts.len() != 2 {
        return Err(IdentityError::InvalidEmail);
    }
    assert(parts.deep_view()[0] == parts@[0]@ && parts.deep_view()[1] == parts@[1]@);
    if parts[0].as_str().is_empty() || parts[1].as_str().is_empty() {
        return Err(IdentityError::InvalidEmail);
    }
    Ok(normal)
}

/// An address as it is compared.
pub fn normalize_email(email: &str) -> (r: Result<String, IdentityError>)
    ensures
        match r {
            Ok(normal) => is_email(normal_email(email@)) && normal@ == normal_email(email@),
            Err(error) => !is_email(normal_email(email@)) && error == IdentityError::InvalidEmail,
        },
{
    check_email(lowercase(trim(email).as_str()))
}

/// What is shown of an address.
pub fn mask_email(email: &str) -> (r: String)
    requires
        cut(email@, '@') is Some,
    ensures
        r@ == masked_email(email@),
{
    let (local, domain) = match split_once(email, '@') {
        Some(parts) => parts,
        None => (String::new(), String::new()),
    };
    let labels = split(domain.as_str(), '.');
    assert(labels.deep_view()[0] == labels@[0]@);
    assert(labels.deep_view().last() == labels@.last()@);
    let prefix = first_character(labels[0].as_str());
    let mut masked = String::new();
    masked.push(first_character(local.as_str()));
    masked.append("***@");
    masked.push(prefix);
    if labels.len() >= 2 {
        masked.append(".");
        masked.append(labels[labels.len() - 1].as_str());
    } else {
        masked.append("***");
    }
    masked.append("***");
    assert(masked@ =~= masked_email(email@));
    masked
}

impl IdentityHasher {
    /// The key.
    pub closed spec fn key(&self) -> Seq<u8> {
        self.secret@
    }

    /// A hasher with a secret, which must not be empty.
    pub fn new(secret: &[u8]) -> (r: Result<Self, IdentityError>)
        ensures
            match r {
                Ok(hasher) => secret@.len() > 0 && hasher.key() == secret@,
                Err(error) => secret@.len() == 0 && error == IdentityError::EmptySecret,
            },
    {
        if secret.len() == 0 {
            return Err(IdentityError::EmptySecret);
        }
        let mut copied: Vec<u8> = Vec::new();
        let mut i: usize = 0;
        while i < secret.len()
            invariant
                i <= secret@.len(),
                copied@ == secret@.take(i as int),
            decreases secret@.len() - i,
        {
            copied.push(secret[i]);
            i = i + 1;
            assert(copied@ =~= secret@.take(i as int));
        }
        assert(secret@.take(i as int) =~= secret@);
        Ok(IdentityHasher { secret: copied })
    }

    /// What is kept of an address.
    pub fn from_email(&self, email: &str) -> (r: Result<HashedEmail, IdentityError>)
        ensures
            match r {
                Ok(hashed) => hashed_email(self.key(), email@) == Some(hashed.deep_view()),
                Err(error) => hashed_email(self.key(), email@) is None && error
                    == IdentityError::InvalidEmail,
            },
            r is Ok ==> r->Ok_0.identity_hmac@.len() == 64,
    {
        match normalize_email(email) {
            Ok(normal) => {
                proof {
                    lemma_two_pieces(normal@);
                }
                Ok(
                    HashedEmail {
                        email_masked: mask_email(normal.as_str()),
                        identity_hmac: self.fingerprint(normal.as_str()),
                    },
                )
            },
            Err(error) => Err(error),
        }
    }

    /// The hexadecimal code of an identity.
    pub fn fingerprint(&self, stable_identity: &str) -> (r: String)
        ensures
            r@ == fingerprint_of(self.key(), stable_identity@),
            r@.len() == 64,
    {
        let code = hmac_sha256(self.secret.as_slice(), stable_identity.as_bytes());
        hex_encode(code.as_slice())
    }
}

} // verus!
