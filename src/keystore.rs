//! The service's key material bookkeeping: the key handle that names the
//! oracle's threshold key, set once, and the public key cached in volatile
//! memory; and the requests made of the threshold oracle.
use vstd::prelude::*;
use vstd::string::{StrSliceExecFns, StringSliceAdditionalSpecFns};
use crate::envelope::copy_range;

verus! {

/// Domain separation label sent with every oracle request.
pub const DOMAIN_SEPARATOR: &'static str = "basic_timelock_ibe_example_dapp";

/// The bytes of the domain separation label.
pub open spec fn domain_context() -> Seq<u8> {
    DOMAIN_SEPARATOR.spec_bytes()
}

/// Request for the service's public key.
pub struct PublicKeyRequest {
    pub context: Vec<u8>,
    pub key_name: String,
}

/// Request for the key derived for `input`, encrypted to `transport_public_key`.
pub struct DeriveKeyRequest {
    pub input: Vec<u8>,
    pub context: Vec<u8>,
    pub transport_public_key: Vec<u8>,
    pub key_name: String,
}

/// What to do to obtain the public key.
pub enum PublicKeyAction {
    /// The key is cached: here it is.
    Cached(Vec<u8>),
    /// The key must be fetched from the oracle with this request; the caller
    /// reports the answer with `store_public_key` or `fetch_failed`.
    Fetch(PublicKeyRequest),
    /// Another request is already fetching the key: wait for it to be stored
    /// (or for the fetch to fail), then ask again.
    Wait,
}

/// Key handle and cached public key.
pub struct KeyStore {
    handle: String,
    handle_set: bool,
    public_key: Option<Vec<u8>>,
    fetch_pending: bool,
}

/// The model of `KeyStore`.
pub struct KeyStoreModel {
    pub handle: Seq<char>,
    pub handle_set: bool,
    pub public_key: Option<Seq<u8>>,
    pub fetch_pending: bool,
}

impl View for KeyStore {
    type V = KeyStoreModel;

    closed spec fn view(&self) -> KeyStoreModel {
        KeyStoreModel {
            handle: self.handle@,
            handle_set: self.handle_set,
            public_key: match self.public_key {
                Some(k) => Some(k@),
                None => None,
            },
            fetch_pending: self.fetch_pending,
        }
    }
}

impl KeyStore {
    /// A store with an empty, not yet set handle and nothing cached.
    pub fn new() -> (r: KeyStore)
        ensures
            r@ == (KeyStoreModel {
                handle: Seq::<char>::empty(),
                handle_set: false,
                public_key: None,
                fetch_pending: false,
            }),
    {
        KeyStore { handle: String::new(), handle_set: false, public_key: None, fetch_pending: false }
    }

    /// A store whose handle was set before a restart; nothing is cached.
    pub fn with_handle(handle: String) -> (r: KeyStore)
        ensures
            r@ == (KeyStoreModel {
                handle: handle@,
                handle_set: true,
                public_key: None,
                fetch_pending: false,
            }),
    {
        KeyStore { handle, handle_set: true, public_key: None, fetch_pending: false }
    }

    /// Sets the key handle. Only the first call sets it; a later call with the
    /// same name changes nothing and succeeds, one with another name changes
    /// nothing and fails.
    pub fn set_handle(&mut self, name: String) -> (r: bool)
        ensures
            r == (!old(self)@.handle_set || old(self)@.handle == name@),
            !old(self)@.handle_set ==> final(self)@ == (KeyStoreModel {
                handle: name@,
                handle_set: true,
                public_key: old(self)@.public_key,
                fetch_pending: old(self)@.fetch_pending,
            }),
            old(self)@.handle_set ==> final(self)@ == old(self)@,
    {
        if !self.handle_set {
            self.handle = name;
            self.handle_set = true;
            true
        } else {
            self.handle == name
        }
    }

    /// The key handle.
    pub fn key_name(&self) -> (r: String)
        ensures
            r@ == self@.handle,
    {
        self.handle.clone()
    }

    /// Whether a fetch of the public key is in flight.
    pub fn is_fetch_pending(&self) -> (r: bool)
        ensures
            r == self@.fetch_pending,
    {
        self.fetch_pending
    }

    /// The cached public key, if any.
    pub fn cached_public_key(&self) -> (r: Option<Vec<u8>>)
        ensures
            match r {
                Some(k) => self@.public_key == Some(k@),
                None => self@.public_key is None,
            },
    {
        match &self.public_key {
            Some(k) => Some(copy_range(k, 0, k.len())),
            None => None,
        }
    }

    /// The request for the public key, made with the key handle.
    pub fn public_key_request(&self) -> (r: PublicKeyRequest)
        ensures
            r.context@ == domain_context(),
            r.key_name@ == self@.handle,
    {
        PublicKeyRequest { context: DOMAIN_SEPARATOR.as_bytes_vec(), key_name: self.key_name() }
    }

    /// What a request that needs the public key does next: use the cached
    /// key; or, on the first miss, fetch it, which marks a fetch as pending;
    /// or, while that fetch is pending, wait. Concurrent misses thus make one
    /// outbound call between them.
    pub fn public_key_action(&mut self) -> (r: PublicKeyAction)
        ensures
            match r {
                PublicKeyAction::Cached(k) => {
                    &&& old(self)@.public_key == Some(k@)
                    &&& final(self)@ == old(self)@
                },
                PublicKeyAction::Fetch(req) => {
                    &&& old(self)@.public_key is None
                    &&& !old(self)@.fetch_pending
                    &&& req.context@ == domain_context()
                    &&& req.key_name@ == old(self)@.handle
                    &&& final(self)@ == (KeyStoreModel { fetch_pending: true, ..old(self)@ })
                },
                PublicKeyAction::Wait => {
                    &&& old(self)@.public_key is None
                    &&& old(self)@.fetch_pending
                    &&& final(self)@ == old(self)@
                },
            },
    {
        match self.cached_public_key() {
            Some(k) => PublicKeyAction::Cached(k),
            None => {
                if self.fetch_pending {
                    PublicKeyAction::Wait
                } else {
                    self.fetch_pending = true;
                    PublicKeyAction::Fetch(self.public_key_request())
                }
            },
        }
    }

    /// Records that the pending fetch failed: nothing is cached, and the next
    /// miss fetches again.
    pub fn fetch_failed(&mut self)
        ensures
            final(self)@ == (KeyStoreModel { fetch_pending: false, ..old(self)@ }),
    {
        self.fetch_pending = false;
    }

    /// Records a public key the oracle returned and gives back the key to use.
    /// Another request may have filled the cache while this one waited; the
    /// key cached first is kept, so all callers see one key.
    pub fn store_public_key(&mut self, fetched: Vec<u8>) -> (r: Vec<u8>)
        ensures
            final(self)@.handle == old(self)@.handle,
            final(self)@.handle_set == old(self)@.handle_set,
            !final(self)@.fetch_pending,
            old(self)@.public_key is None ==> final(self)@.public_key == Some(fetched@) && r@
                == fetched@,
            old(self)@.public_key is Some ==> final(self)@.public_key == old(self)@.public_key
                && Some(r@) == old(self)@.public_key,
    {
        self.fetch_pending = false;
        match self.cached_public_key() {
            Some(k) => k,
            None => {
                let r = copy_range(&fetched, 0, fetched.len());
                proof {
                    assert(fetched@.subrange(0, fetched@.len() as int) =~= fetched@);
                }
                self.public_key = Some(fetched);
                r
            },
        }
    }

    /// Run on every resume of the process: the volatile cache is gone, no
    /// fetch is in flight, the key handle stays. No outside service is asked.
    pub fn reestablish_after_restart(&mut self)
        ensures
            final(self)@ == (KeyStoreModel { public_key: None, fetch_pending: false, ..old(self)@ }),
    {
        self.public_key = None;
        self.fetch_pending = false;
    }

    /// The request for the key derived for `input`, encrypted to
    /// `transport_public_key`.
    pub fn derive_key_request(&self, input: &Vec<u8>, transport_public_key: &Vec<u8>) -> (r:
        DeriveKeyRequest)
        ensures
            r.input@ == input@,
            r.context@ == domain_context(),
            r.transport_public_key@ == transport_public_key@,
            r.key_name@ == self@.handle,
    {
        let i = copy_range(input, 0, input.len());
        let t = copy_range(transport_public_key, 0, transport_public_key.len());
        proof {
            assert(input@.subrange(0, input@.len() as int) =~= input@);
            assert(transport_public_key@.subrange(0, transport_public_key@.len() as int)
                =~= transport_public_key@);
        }
        DeriveKeyRequest {
            input: i,
            context: DOMAIN_SEPARATOR.as_bytes_vec(),
            transport_public_key: t,
            key_name: self.key_name(),
        }
    }
}

} // verus!
