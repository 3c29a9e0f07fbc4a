//! Providers of the database encryption key: the system keychain, with the
//! key cached after the first lookup, and a fixed key for tests.

use vstd::prelude::*;

use crate::encoding::{hex_encode, spec_hex_lower};
use crate::security::random_bytes;
use crate::text::to_owned_string;

verus! {

/// Why a key could not be had.
#[derive(Debug, PartialEq, Eq)]
pub struct KeyError {
    pub message: String,
}

/// A source of the database encryption key.
pub trait KeyProvider {
    /// The key, created where none exists yet.
    fn get_key(&mut self) -> Result<String, KeyError>;

    /// The key, if one exists.
    fn read_key(&mut self) -> Result<Option<String>, KeyError>;
}

#[verifier::external_type_specification]
#[verifier::external_body]
pub struct ExKeyringEntry(keyring::Entry);

/// What a keychain lookup gave.
pub enum KeychainLookup {
    Found(String),
    NoEntry,
    Failed(String),
}

/// The abstract outcome of a keychain lookup.
pub enum LookupKind {
    Found(Seq<char>),
    NoEntry,
    Failed(Seq<char>),
}

impl View for KeychainLookup {
    type V = LookupKind;

    open spec fn view(&self) -> LookupKind {
        match self {
            KeychainLookup::Found(k) => LookupKind::Found(k@),
            KeychainLookup::NoEntry => LookupKind::NoEntry,
            KeychainLookup::Failed(m) => LookupKind::Failed(m@),
        }
    }
}

/// The service and user a keychain entry was made for.
pub uninterp spec fn entry_target(entry: keyring::Entry) -> (Seq<char>, Seq<char>);

/// The passwords the keychain holds for an entry, as last seen through it:
/// none, or the one stored.
pub uninterp spec fn entry_passwords(entry: keyring::Entry) -> Set<Seq<char>>;

/// Some keychain entry for `service` and `user` holds exactly `passwords`.
pub open spec fn entry_holds(service: Seq<char>, user: Seq<char>, passwords: Set<Seq<char>>) -> bool {
    exists|e: keyring::Entry| entry_target(e) == (service, user) && #[trigger] entry_passwords(e) == passwords
}

/// Calls `keyring::Entry::new` for the service and user; on failure, the
/// error's text. An entry made is the entry of that service and user.
/// Whether the keychain gives one depends on the machine's credential
/// store, so success is not stated.
#[verifier::external_body]
fn keyring_entry(service: &str, user: &str) -> (r: Result<keyring::Entry, String>)
    ensures
        r matches Ok(e) ==> entry_target(e) == (service@, user@),
{
    match keyring::Entry::new(service, user) {
        Ok(entry) => Ok(entry),
        Err(e) => Err(format!("{}", e)),
    }
}

/// Calls `keyring::Entry::get_password`, telling a missing entry
/// (`keyring::Error::NoEntry`) from other failures. A password read is what
/// the keychain holds for the entry; a missing entry holds none. Other
/// failures tell nothing of what it holds. The entry stays that of its
/// service and user.
#[verifier::external_body]
fn keyring_get_password(entry: &mut keyring::Entry) -> (r: KeychainLookup)
    ensures
        entry_target(*final(entry)) == entry_target(*old(entry)),
        r matches KeychainLookup::Found(k) ==> entry_passwords(*final(entry)) == set![k@],
        r is NoEntry ==> entry_passwords(*final(entry)) == Set::<Seq<char>>::empty(),
{
    match entry.get_password() {
        Ok(key) => KeychainLookup::Found(key),
        Err(keyring::Error::NoEntry) => KeychainLookup::NoEntry,
        Err(e) => KeychainLookup::Failed(format!("{}", e)),
    }
}

/// Calls `keyring::Entry::set_password`; on failure, the error's text. Once
/// it succeeds the keychain holds `password` for the entry. The entry stays
/// that of its service and user.
#[verifier::external_body]
fn keyring_set_password(entry: &mut keyring::Entry, password: &str) -> (r: Result<(), String>)
    ensures
        entry_target(*final(entry)) == entry_target(*old(entry)),
        r is Ok ==> entry_passwords(*final(entry)) == set![password@],
{
    match entry.set_password(password) {
        Ok(()) => Ok(()),
        Err(e) => Err(format!("{}", e)),
    }
}

fn key_error(prefix: &str, detail: &str) -> (r: KeyError)
    ensures
        r.message@ == prefix@ + detail@,
{
    KeyError { message: to_owned_string(prefix).concat(detail) }
}

/// A key result as text: the key, or the error's message.
pub open spec fn key_result_view(r: Result<String, KeyError>) -> Result<Seq<char>, Seq<char>> {
    match r {
        Ok(k) => Ok(k@),
        Err(e) => Err(e.message@),
    }
}

/// A key lookup result as text: the key if any, or the error's message.
pub open spec fn read_result_view(r: Result<Option<String>, KeyError>) -> Result<
    Option<Seq<char>>,
    Seq<char>,
> {
    match r {
        Ok(Some(k)) => Ok(Some(k@)),
        Ok(None) => Ok(None),
        Err(e) => Err(e.message@),
    }
}

/// The outcome of saving a key as text.
pub open spec fn save_view(r: Result<(), String>) -> Result<(), Seq<char>> {
    match r {
        Ok(_) => Ok(()),
        Err(m) => Err(m@),
    }
}

/// What reading the key gives for a keychain lookup: the stored key, none
/// where the entry holds none, or the lookup's failure.
pub open spec fn read_outcome(l: LookupKind) -> Result<Option<Seq<char>>, Seq<char>> {
    match l {
        LookupKind::Found(k) => Ok(Some(k)),
        LookupKind::NoEntry => Ok(None),
        LookupKind::Failed(m) => Err("Failed to retrieve key: "@ + m),
    }
}

/// What getting the key gives for a keychain lookup, the key made where the
/// entry holds none, and the outcome of saving that key: the stored key; or,
/// where there is none, the new key once saved, the failure to make it, or
/// the failure to save it; or the lookup's failure.
pub open spec fn key_outcome(
    l: LookupKind,
    fresh: Result<Seq<char>, Seq<char>>,
    saved: Result<(), Seq<char>>,
) -> Result<Seq<char>, Seq<char>> {
    match l {
        LookupKind::Found(k) => Ok(k),
        LookupKind::NoEntry => match fresh {
            Err(m) => Err(m),
            Ok(k) => match saved {
                Ok(_) => Ok(k),
                Err(m) => Err("Failed to save key: "@ + m),
            },
        },
        LookupKind::Failed(m) => Err("Failed to retrieve key: "@ + m),
    }
}

/// A key made by `generate_key`: 32 bytes in lowercase hex.
pub open spec fn fresh_key(k: Seq<char>) -> bool {
    exists|bytes: Seq<u8>| bytes.len() == 32 && k == #[trigger] spec_hex_lower(bytes)
}

/// The message of a failure to open the keychain entry.
pub open spec fn entry_failure(m: Seq<char>) -> bool {
    exists|detail: Seq<char>| m == #[trigger] ("Keyring init error: "@ + detail)
}

/// The message of a failed keychain lookup.
pub open spec fn lookup_failure(m: Seq<char>) -> bool {
    exists|detail: Seq<char>| m == #[trigger] ("Failed to retrieve key: "@ + detail)
}

/// The outcomes of making a key: a fresh key, or the failure to make one.
pub open spec fn made_key(fresh: Result<Seq<char>, Seq<char>>) -> bool {
    match fresh {
        Ok(k) => fresh_key(k),
        Err(m) => m == "Failed to generate key: "@ + "no randomness available"@,
    }
}

/// The key a keychain lookup gives: the stored key, none where the entry
/// holds none, or an error for a failed lookup.
pub fn key_from_lookup(lookup: KeychainLookup) -> (r: Result<Option<String>, KeyError>)
    ensures
        read_result_view(r) == read_outcome(lookup@),
{
    match lookup {
        KeychainLookup::Found(key) => Ok(Some(key)),
        KeychainLookup::NoEntry => Ok(None),
        KeychainLookup::Failed(msg) => Err(key_error("Failed to retrieve key: ", msg.as_str())),
    }
}

/// The key for a keychain lookup, the key made where the entry holds none
/// (`fresh`) and the outcome of saving it (`saved`); `fresh` and `saved` are
/// consulted only where the lookup found no entry.
pub fn key_after_lookup(lookup: KeychainLookup, fresh: Result<String, KeyError>, saved: Result<(), String>) -> (r:
    Result<String, KeyError>)
    ensures
        key_result_view(r) == key_outcome(lookup@, key_result_view(fresh), save_view(saved)),
{
    match lookup {
        KeychainLookup::Found(key) => Ok(key),
        KeychainLookup::NoEntry => match fresh {
            Err(e) => Err(e),
            Ok(key) => match saved {
                Ok(()) => Ok(key),
                Err(msg) => Err(key_error("Failed to save key: ", msg.as_str())),
            },
        },
        KeychainLookup::Failed(msg) => Err(key_error("Failed to retrieve key: ", msg.as_str())),
    }
}

/// A key found in the keychain is the key given, whatever key could have
/// been made or saved instead, and it is the only password of the entry it
/// was found in: a stored key is never replaced.
pub proof fn law_stored_key_is_given(
    k: Seq<char>,
    e: keyring::Entry,
    fresh: Result<Seq<char>, Seq<char>>,
    saved: Result<(), Seq<char>>,
)
    requires
        lookup_agrees(LookupKind::Found(k), e),
    ensures
        key_outcome(LookupKind::Found(k), fresh, saved) == Ok::<Seq<char>, Seq<char>>(k),
        read_outcome(LookupKind::Found(k)) == Ok::<Option<Seq<char>>, Seq<char>>(Some(k)),
        entry_passwords(e) == set![k],
{
}

/// Where the entry holds no key, the key given is a fresh one: 32 random
/// bytes in lowercase hex, and only once it was saved.
pub proof fn law_new_key_only_when_saved(
    fresh: Result<Seq<char>, Seq<char>>,
    saved: Result<(), Seq<char>>,
    k: Seq<char>,
)
    requires
        made_key(fresh),
        key_outcome(LookupKind::NoEntry, fresh, saved) == Ok::<Seq<char>, Seq<char>>(k),
    ensures
        fresh_key(k),
        fresh == Ok::<Seq<char>, Seq<char>>(k),
        saved is Ok,
{
}

/// The encryption key kept in the system keychain, cached in memory once
/// read.
pub struct KeychainProvider {
    service: String,
    user: String,
    cached_key: Option<String>,
    seen: Ghost<Option<(LookupKind, keyring::Entry)>>,
}

/// A lookup result agrees with what the entry holds once looked up: a key
/// found is the entry's only password, and a missing entry holds none.
pub open spec fn lookup_agrees(l: LookupKind, e: keyring::Entry) -> bool {
    match l {
        LookupKind::Found(k) => entry_passwords(e) == set![k],
        LookupKind::NoEntry => entry_passwords(e) == Set::<Seq<char>>::empty(),
        LookupKind::Failed(_) => true,
    }
}

impl KeychainProvider {
    /// The keychain service name.
    pub closed spec fn service(&self) -> Seq<char> {
        self.service@
    }

    /// The keychain user name.
    pub closed spec fn user(&self) -> Seq<char> {
        self.user@
    }

    /// The key cached in memory, if any.
    pub closed spec fn cached(&self) -> Option<Seq<char>> {
        match self.cached_key {
            Some(k) => Some(k@),
            None => None,
        }
    }

    /// The last keychain lookup made to get the key, with the entry as it
    /// was right after that lookup.
    pub closed spec fn last_lookup(&self) -> Option<(LookupKind, keyring::Entry)> {
        self.seen@
    }

    /// A provider for Dopper's entry in the keychain, with nothing cached.
    /// No keychain is touched.
    pub fn new() -> (r: KeychainProvider)
        ensures
            r.service() == "dopper-cli"@,
            r.user() == "db-encryption-key"@,
            r.cached() is None,
    {
        KeychainProvider {
            service: to_owned_string("dopper-cli"),
            user: to_owned_string("db-encryption-key"),
            cached_key: None,
            seen: Ghost(None),
        }
    }

    /// A new key: 32 random bytes in lowercase hex. It fails only where the
    /// operating system gives no random bytes, which the program cannot
    /// foresee, so success is not promised.
    fn generate_key() -> (r: Result<String, KeyError>)
        ensures
            made_key(key_result_view(r)),
    {
        match random_bytes(32) {
            Some(bytes) => Ok(hex_encode(bytes.as_slice())),
            None => Err(key_error("Failed to generate key: ", "no randomness available")),
        }
    }

    /// The keychain entry for this provider's service and user. Whether the
    /// keychain gives one is outside the program; where it does not, the
    /// error says so, after the text "Keyring init error: ".
    fn entry(&self) -> (r: Result<keyring::Entry, KeyError>)
        ensures
            r matches Ok(e) ==> entry_target(e) == (self.service(), self.user()),
            r matches Err(e) ==> entry_failure(e.message@),
    {
        match keyring_entry(self.service.as_str(), self.user.as_str()) {
            Ok(entry) => Ok(entry),
            Err(msg) => Err(key_error("Keyring init error: ", msg.as_str())),
        }
    }
}

impl KeyProvider for KeychainProvider {
    /// The key: from the cache, else from the keychain entry of this
    /// provider's service and user, else a new random key that is saved to
    /// that entry. A key once had stays cached and is what every later call
    /// gives. With nothing cached, the result is `key_outcome` of the
    /// lookup, of a freshly made key and of saving it, or the failure to
    /// open the entry; a key given is what that entry now holds.
    fn get_key(&mut self) -> (r: Result<String, KeyError>)
        ensures
            final(self).service() == old(self).service(),
            final(self).user() == old(self).user(),
            old(self).cached() matches Some(k) ==> (r matches Ok(x) && x@ == k) && final(self).cached() == old(self).cached(),
            old(self).cached() is None ==> (r matches Ok(k) ==> entry_holds(
                old(self).service(),
                old(self).user(),
                set![k@],
            )),
            old(self).cached() is None ==> (key_result_view(r) matches Err(m) && entry_failure(m))
                || exists|l: LookupKind, fresh: Result<Seq<char>, Seq<char>>, saved: Result<(), Seq<char>>|
                made_key(fresh) && key_result_view(r) == #[trigger] key_outcome(l, fresh, saved),
            old(self).cached() is None && !(key_result_view(r) matches Err(m) && entry_failure(m))
                ==> (final(self).last_lookup() matches Some((l, e)) && entry_target(e) == (
                old(self).service(),
                old(self).user(),
            ) && lookup_agrees(l, e) && exists|fresh: Result<Seq<char>, Seq<char>>, saved: Result<(), Seq<char>>|
                made_key(fresh) && key_result_view(r) == #[trigger] key_outcome(l, fresh, saved)),
            r matches Ok(x) ==> final(self).cached() == Some(x@),
            r is Err ==> final(self).cached() == old(self).cached(),
    {
        if let Some(key) = &self.cached_key {
            return Ok(key.clone());
        }
        let mut entry = match self.entry() {
            Ok(e) => e,
            Err(e) => {
                return Err(e);
            },
        };
        let lookup = keyring_get_password(&mut entry);
        let ghost l = lookup@;
        self.seen = Ghost(Some((l, entry)));
        // `fresh` and `saved` are made and consulted only where the entry holds no key.
        let mut fresh: Result<String, KeyError> = Err(key_error("Failed to generate key: ", "no randomness available"));
        let mut saved: Result<(), String> = Ok(());
        if let KeychainLookup::NoEntry = lookup {
            fresh = Self::generate_key();
            if let Ok(k) = &fresh {
                saved = keyring_set_password(&mut entry, k.as_str());
            }
        }
        let ghost fv = key_result_view(fresh);
        let ghost sv = save_view(saved);
        let r = key_after_lookup(lookup, fresh, saved);
        if let Ok(key) = &r {
            self.cached_key = Some(key.clone());
        }
        assert(key_result_view(r) == key_outcome(l, fv, sv));
        proof {
            if r is Ok {
                assert(entry_passwords(entry) == set![key_result_view(r)->Ok_0]);
            }
        }
        r
    }

    /// The key, if the cache or the keychain entry of this provider's
    /// service and user holds one; a key found is cached. The keychain is
    /// only read. With nothing cached, the result is `read_outcome` of the
    /// lookup of that entry, or the failure to open it: a key given is what
    /// the entry holds, and none is given only where it holds none.
    fn read_key(&mut self) -> (r: Result<Option<String>, KeyError>)
        ensures
            final(self).service() == old(self).service(),
            final(self).user() == old(self).user(),
            old(self).cached() matches Some(k) ==> (r matches Ok(Some(x)) && x@ == k) && final(self).cached() == old(self).cached(),
            old(self).cached() is None ==> (r matches Ok(Some(k)) ==> entry_holds(
                old(self).service(),
                old(self).user(),
                set![k@],
            )),
            old(self).cached() is None ==> (r matches Ok(None) ==> entry_holds(
                old(self).service(),
                old(self).user(),
                Set::<Seq<char>>::empty(),
            )),
            old(self).cached() is None ==> (r matches Err(e) ==> entry_failure(e.message@)
                || lookup_failure(e.message@)),
            r matches Ok(Some(x)) ==> final(self).cached() == Some(x@),
            !(r matches Ok(Some(_))) ==> final(self).cached() == old(self).cached(),
    {
        if let Some(key) = &self.cached_key {
            return Ok(Some(key.clone()));
        }
        let mut entry = match self.entry() {
            Ok(e) => e,
            Err(e) => {
                return Err(e);
            },
        };
        let lookup = keyring_get_password(&mut entry);
        let ghost l = lookup@;
        let r = key_from_lookup(lookup);
        if let Ok(Some(key)) = &r {
            self.cached_key = Some(key.clone());
        }
        assert(read_result_view(r) == read_outcome(l));
        proof {
            if let LookupKind::Failed(m) = l {
                assert(lookup_failure("Failed to retrieve key: "@ + m));
            }
        }
        r
    }
}

/// A provider that always gives one fixed key.
pub struct MockKeyProvider {
    key: String,
}

impl MockKeyProvider {
    /// The fixed key.
    pub closed spec fn key(&self) -> Seq<char> {
        self.key@
    }

    /// A provider of the key `key`.
    pub fn new(key: &str) -> (r: MockKeyProvider)
        ensures
            r.key() == key@,
    {
        MockKeyProvider { key: to_owned_string(key) }
    }
}

impl KeyProvider for MockKeyProvider {
    fn get_key(&mut self) -> (r: Result<String, KeyError>)
        ensures
            r matches Ok(x) && x@ == old(self).key(),
            final(self).key() == old(self).key(),
    {
        Ok(self.key.clone())
    }

    fn read_key(&mut self) -> (r: Result<Option<String>, KeyError>)
        ensures
            r matches Ok(Some(x)) && x@ == old(self).key(),
            final(self).key() == old(self).key(),
    {
        Ok(Some(self.key.clone()))
    }
}

} // verus!
