//! Parameters whose values are kept as secrets.

use secrecy::{ExposeSecret, SecretString};
use vstd::hash_map::StringHashMap;
use vstd::prelude::*;

verus! {

/// A text that is kept out of logs and wiped when it is dropped: a
/// `secrecy::SecretString`, the container whose one item is the text.
#[verifier::external_body]
pub struct Secret {
    inner: SecretString,
}

/// The text that a secret holds.
pub uninterp spec fn secret_text(secret: Secret) -> Seq<char>;

/// Puts a text into a secret: `SecretString::from`.
///
/// The contract says that the secret then holds that text.
#[verifier::external_body]
fn seal(text: String) -> (secret: Secret)
    ensures
        secret_text(secret) == text@,
{
    Secret { inner: SecretString::from(text) }
}

/// Reads the text of a secret: `ExposeSecret::expose_secret`.
///
/// The contract says that what is read is the text that the secret holds.
#[verifier::external_body]
fn expose(secret: &Secret) -> (text: &str)
    ensures
        text@ == secret_text(*secret),
{
    secret.inner.expose_secret()
}

/// A map from names to secret texts.
pub struct SecretMap {
    entries: StringHashMap<Secret>,
}

impl View for SecretMap {
    type V = Map<Seq<char>, Seq<char>>;

    closed spec fn view(&self) -> Map<Seq<char>, Seq<char>> {
        self.entries@.map_values(|secret: Secret| secret_text(secret))
    }
}

impl SecretMap {
    /// The map without entries.
    pub fn new() -> (map: Self)
        ensures
            map@ == Map::<Seq<char>, Seq<char>>::empty(),
    {
        let map = SecretMap { entries: StringHashMap::new() };
        assert(map@ == Map::<Seq<char>, Seq<char>>::empty());
        map
    }

    /// Stores `value` under `key`, in place of what stood there.
    pub fn insert(&mut self, key: String, value: String)
        ensures
            final(self)@ == old(self)@.insert(key@, value@),
    {
        self.entries.insert(key, seal(value));
        assert(self@ == old(self)@.insert(key@, value@));
    }

    /// The text that stands under `key`.
    pub fn get(&self, key: &str) -> (value: Option<&str>)
        ensures
            value.deep_view() == (if self@.contains_key(key@) {
                Some(self@[key@])
            } else {
                None
            }),
    {
        match self.entries.get(key) {
            Some(secret) => Some(expose(secret)),
            None => None,
        }
    }

    /// The number of entries.
    pub fn len(&self) -> (n: usize)
        ensures
            n == self@.len(),
    {
        assert(self@.dom() == self.entries@.dom());
        self.entries.len()
    }
}

} // verus!
