//! The request handlers and the one-shot install state machine, written over
//! the store model. The handlers return HTTP-style status codes; the functions
//! on plain outcomes let a caller drive a real storage engine with the same
//! decisions.
use vstd::prelude::*;
use vstd::utf8::encode_utf8;
use vstd::string::StrSliceExecFns;
use crate::store::KvStore;
use crate::user::{UserView, spec_decode_user, spec_encode_user, decode_user, encode_user};
use crate::wire::copy_range;
use crate::BODY_CEILING;

verus! {

pub const STATUS_OK: u16 = 200;
pub const STATUS_BAD_REQUEST: u16 = 400;
pub const STATUS_NOT_FOUND: u16 = 404;
pub const STATUS_GONE: u16 = 410;
pub const STATUS_PAYLOAD_TOO_LARGE: u16 = 413;
pub const STATUS_INTERNAL_ERROR: u16 = 500;

/// The reserved key whose presence alone means "installed".
pub open spec fn spec_marker_key() -> Seq<u8> {
    seq![
        'i' as u8, 'n' as u8, 's' as u8, 't' as u8, 'a' as u8, 'l' as u8, 'l' as u8, '-' as u8,
        't' as u8, 'o' as u8, 'k' as u8, 'e' as u8, 'n' as u8, '-' as u8, 'k' as u8, 'e' as u8,
        'y' as u8,
    ]
}

/// The bytes stored under the marker key; their content is never read.
pub open spec fn spec_marker_value() -> Seq<u8> {
    seq![
        'i' as u8, 'n' as u8, 's' as u8, 't' as u8, 'a' as u8, 'l' as u8, 'l' as u8, 'e' as u8,
        'd' as u8,
    ]
}

/// The key under which the user record with identifier `id` is persisted.
pub open spec fn spec_users_key(id: Seq<char>) -> Seq<u8> {
    seq!['u' as u8, 's' as u8, 'e' as u8, 'r' as u8, 's' as u8, '_' as u8] + encode_utf8(id)
}

/// The marker key as a buffer.
pub fn marker_key() -> (r: Vec<u8>)
    ensures
        r@ == spec_marker_key(),
{
    let r: Vec<u8> = vec![
        'i' as u8, 'n' as u8, 's' as u8, 't' as u8, 'a' as u8, 'l' as u8, 'l' as u8, '-' as u8,
        't' as u8, 'o' as u8, 'k' as u8, 'e' as u8, 'n' as u8, '-' as u8, 'k' as u8, 'e' as u8,
        'y' as u8,
    ];
    proof {
        assert(r@ =~= spec_marker_key());
    }
    r
}

/// The marker value as a buffer.
pub fn marker_value() -> (r: Vec<u8>)
    ensures
        r@ == spec_marker_value(),
{
    let r: Vec<u8> = vec![
        'i' as u8, 'n' as u8, 's' as u8, 't' as u8, 'a' as u8, 'l' as u8, 'l' as u8, 'e' as u8,
        'd' as u8,
    ];
    proof {
        assert(r@ =~= spec_marker_value());
    }
    r
}

/// The storage key for the record with identifier `id`.
pub fn users_key(id: &String) -> (r: Vec<u8>)
    ensures
        r@ == spec_users_key(id@),
{
    let mut r: Vec<u8> = vec!['u' as u8, 's' as u8, 'e' as u8, 'r' as u8, 's' as u8, '_' as u8];
    let mut id_bytes = id.as_str().as_bytes_vec();
    r.append(&mut id_bytes);
    proof {
        assert(r@ =~= spec_users_key(id@));
    }
    r
}

/// Relies on uuid::Uuid::new_v4 and its Display form: a fresh version-4
/// identifier rendered as 36 hyphenated ASCII characters.
#[verifier::external_body]
fn fresh_id() -> (r: String)
    ensures
        r@.len() == 36,
{
    uuid::Uuid::new_v4().to_string()
}

/// What a storage engine reported for one read.
pub enum GetOutcome {
    Found(Vec<u8>),
    Missing,
    EngineError,
}

/// Folds a read outcome into the read handler's response: the bytes on a hit;
/// "not found" both on a miss and on an engine failure.
pub fn kv_get_response(o: GetOutcome) -> (r: Result<Vec<u8>, u16>)
    ensures
        (match o {
            GetOutcome::Found(v) => r == Ok::<Vec<u8>, u16>(v),
            GetOutcome::Missing => r == Err::<Vec<u8>, u16>(STATUS_NOT_FOUND),
            GetOutcome::EngineError => r == Err::<Vec<u8>, u16>(STATUS_NOT_FOUND),
        }),
{
    match o {
        GetOutcome::Found(v) => Ok(v),
        GetOutcome::Missing => Err(STATUS_NOT_FOUND),
        GetOutcome::EngineError => Err(STATUS_NOT_FOUND),
    }
}

/// What the install transition decides to do, before any write is issued.
pub enum InstallPlan {
    /// The marker is present: refuse and write nothing.
    AlreadyInstalled,
    /// The body does not decode to a user record: refuse and write nothing.
    BadBody,
    /// Persist `record` under `user_key`, then the marker, and answer with
    /// `record`.
    Proceed { user_key: Vec<u8>, record: Vec<u8> },
}

/// The decoded record with the caller-supplied identifier replaced by `id`.
pub open spec fn spec_install_user(b: Seq<u8>, id: Seq<char>) -> UserView
    recommends
        spec_decode_user(b) is Some,
{
    UserView { id: id, ..spec_decode_user(b)->Some_0 }
}

/// Decides the install transition from the marker's presence, the request
/// body, and the identifier to assign.
pub fn install_plan(marker_present: bool, body: &Vec<u8>, id: String) -> (r: InstallPlan)
    ensures
        marker_present ==> r is AlreadyInstalled,
        !marker_present && spec_decode_user(body@) is None ==> r is BadBody,
        !marker_present && spec_decode_user(body@) is Some ==> (r matches InstallPlan::Proceed {
            user_key,
            record,
        } && user_key@ == spec_users_key(id@) && record@ == spec_encode_user(
            spec_install_user(body@, id@),
        )),
{
    if marker_present {
        return InstallPlan::AlreadyInstalled;
    }
    match decode_user(body) {
        None => InstallPlan::BadBody,
        Some(mut user) => {
            user.id = id;
            let record = encode_user(&user);
            let user_key = users_key(&user.id);
            proof {
                assert(user@ =~= spec_install_user(body@, user.id@));
            }
            InstallPlan::Proceed { user_key, record }
        },
    }
}

/// The probe's answer from the marker's presence alone, for a caller that
/// read the marker from its own engine: "gone" once installed, "ok" while
/// not.
pub fn probe_status(marker_present: bool) -> (r: u16)
    ensures
        r == (if marker_present {
            STATUS_GONE
        } else {
            STATUS_OK
        }),
{
    if marker_present {
        STATUS_GONE
    } else {
        STATUS_OK
    }
}

/// Whether the store holds the install marker.
pub open spec fn spec_installed(m: Map<Seq<u8>, Seq<u8>>) -> bool {
    m.contains_key(spec_marker_key())
}

/// The probe's status for a store: "gone" once installed, "ok" while not.
pub open spec fn spec_probe(m: Map<Seq<u8>, Seq<u8>>) -> u16 {
    if spec_installed(m) {
        STATUS_GONE
    } else {
        STATUS_OK
    }
}

/// The store after a write of `v` under `k`, which takes effect only within
/// the body ceiling.
pub open spec fn spec_kv_set(m: Map<Seq<u8>, Seq<u8>>, k: Seq<u8>, v: Seq<u8>) -> Map<
    Seq<u8>,
    Seq<u8>,
> {
    if v.len() <= BODY_CEILING {
        m.insert(k, v)
    } else {
        m
    }
}

/// What a read of `k` returns.
pub open spec fn spec_kv_get(m: Map<Seq<u8>, Seq<u8>>, k: Seq<u8>) -> Option<Seq<u8>> {
    if m.contains_key(k) {
        Some(m[k])
    } else {
        None
    }
}

/// The store after an install attempt with body `b` and fresh identifier
/// `id`: unchanged unless the marker was absent and the body decoded, in
/// which case the re-encoded record and then the marker are written.
pub open spec fn spec_install(m: Map<Seq<u8>, Seq<u8>>, b: Seq<u8>, id: Seq<char>) -> Map<
    Seq<u8>,
    Seq<u8>,
> {
    if spec_installed(m) {
        m
    } else {
        match spec_decode_user(b) {
            None => m,
            Some(_) => m.insert(
                spec_users_key(id),
                spec_encode_user(spec_install_user(b, id)),
            ).insert(spec_marker_key(), spec_marker_value()),
        }
    }
}

/// The store and its handlers, one instance per process.
pub struct Service {
    store: KvStore,
}

impl View for Service {
    type V = Map<Seq<u8>, Seq<u8>>;

    closed spec fn view(&self) -> Map<Seq<u8>, Seq<u8>> {
        self.store@
    }
}

impl Service {
    /// A service over an empty store.
    pub fn new() -> (r: Service)
        ensures
            r@ == Map::<Seq<u8>, Seq<u8>>::empty(),
    {
        Service { store: KvStore::new() }
    }

    /// Read handler: the stored bytes, or "not found".
    pub fn kv_get(&self, key: &Vec<u8>) -> (r: Result<Vec<u8>, u16>)
        ensures
            (match spec_kv_get(self@, key@) {
                Some(v) => r matches Ok(b) && b@ == v,
                None => r == Err::<Vec<u8>, u16>(STATUS_NOT_FOUND),
            }),
    {
        match self.store.get(key) {
            Some(v) => {
                let out = copy_range(v, 0, v.len());
                proof {
                    assert(out@ =~= self@[key@]);
                }
                Ok(out)
            },
            None => Err(STATUS_NOT_FOUND),
        }
    }

    /// Write handler: stores the body verbatim, unless it is over the ceiling,
    /// which is refused before anything is written.
    pub fn kv_set(&mut self, key: Vec<u8>, body: Vec<u8>) -> (r: Result<(), u16>)
        ensures
            final(self)@ == spec_kv_set(old(self)@, key@, body@),
            body@.len() <= BODY_CEILING ==> r == Ok::<(), u16>(()),
            body@.len() > BODY_CEILING ==> r == Err::<(), u16>(STATUS_PAYLOAD_TOO_LARGE),
    {
        if body.len() > BODY_CEILING {
            return Err(STATUS_PAYLOAD_TOO_LARGE);
        }
        self.store.put(key, body);
        Ok(())
    }

    /// Probe handler: "gone" once installed, "ok" while not.
    pub fn install_get(&self) -> (r: u16)
        ensures
            r == spec_probe(self@),
    {
        let key = marker_key();
        let marker_present = match self.store.get(&key) {
            Some(_) => true,
            None => false,
        };
        probe_status(marker_present)
    }

    /// The install transition with the identifier chosen by the caller:
    /// refused once installed or on an undecodable body; otherwise the record
    /// is re-encoded under the fresh identifier, persisted, the marker is
    /// persisted, and the encoded record is the response.
    pub fn install_apply(&mut self, body: &Vec<u8>, id: String) -> (r: Result<Vec<u8>, u16>)
        ensures
            final(self)@ == spec_install(old(self)@, body@, id@),
            spec_installed(old(self)@) ==> r == Err::<Vec<u8>, u16>(STATUS_GONE),
            !spec_installed(old(self)@) && spec_decode_user(body@) is None ==> r == Err::<
                Vec<u8>,
                u16,
            >(STATUS_BAD_REQUEST),
            !spec_installed(old(self)@) && spec_decode_user(body@) is Some ==> (r matches Ok(enc)
                && enc@ == spec_encode_user(spec_install_user(body@, id@))),
    {
        let key = marker_key();
        let marker_present = match self.store.get(&key) {
            Some(_) => true,
            None => false,
        };
        match install_plan(marker_present, body, id) {
            InstallPlan::AlreadyInstalled => Err(STATUS_GONE),
            InstallPlan::BadBody => Err(STATUS_BAD_REQUEST),
            InstallPlan::Proceed { user_key, record } => {
                let response = copy_range(&record, 0, record.len());
                proof {
                    assert(response@ =~= record@);
                }
                self.store.put(user_key, record);
                self.store.put(marker_key(), marker_value());
                Ok(response)
            },
        }
    }

    /// The install transition as served: a fresh identifier is generated and
    /// assigned, overwriting any identifier the body carried.
    pub fn install_post(&mut self, body: &Vec<u8>) -> (r: Result<Vec<u8>, u16>)
        ensures
            spec_installed(old(self)@) ==> r == Err::<Vec<u8>, u16>(STATUS_GONE) && final(self)@
                == old(self)@,
            !spec_installed(old(self)@) && spec_decode_user(body@) is None ==> r == Err::<
                Vec<u8>,
                u16,
            >(STATUS_BAD_REQUEST) && final(self)@ == old(self)@,
            !spec_installed(old(self)@) && spec_decode_user(body@) is Some ==> (exists|
                id: Seq<char>,
            |
                id.len() == 36 && final(self)@ == spec_install(old(self)@, body@, id)
                    && (r matches Ok(enc) && enc@ == spec_encode_user(
                    spec_install_user(body@, id),
                ))),
    {
        let id = fresh_id();
        let ghost idv = id@;
        let r = self.install_apply(body, id);
        proof {
            if !spec_installed(old(self)@) && spec_decode_user(body@) is Some {
                assert(idv.len() == 36 && final(self)@ == spec_install(old(self)@, body@, idv)
                    && (r matches Ok(enc) && enc@ == spec_encode_user(
                    spec_install_user(body@, idv),
                )));
            }
        }
        r
    }
}

/// Law: a write within the ceiling followed by a read of the same key returns
/// the written bytes unchanged, whatever the store held before.
pub proof fn lemma_kv_roundtrip(m: Map<Seq<u8>, Seq<u8>>, k: Seq<u8>, v: Seq<u8>)
    requires
        v.len() <= BODY_CEILING,
    ensures
        spec_kv_get(spec_kv_set(m, k, v), k) == Some(v),
{
}

/// Law: a read of a key never written answers "not found".
pub proof fn lemma_kv_miss(m: Map<Seq<u8>, Seq<u8>>, k: Seq<u8>)
    requires
        !m.contains_key(k),
    ensures
        spec_kv_get(m, k) is None,
{
}

/// Law: a write over the ceiling leaves the store untouched.
pub proof fn lemma_kv_set_over_ceiling(m: Map<Seq<u8>, Seq<u8>>, k: Seq<u8>, v: Seq<u8>)
    requires
        v.len() > BODY_CEILING,
    ensures
        spec_kv_set(m, k, v) == m,
{
}

/// Law: the first install on an uninstalled store with a well-formed body
/// installs, and any later install attempt, whatever its body or identifier,
/// changes nothing.
pub proof fn lemma_install_idempotent(
    m: Map<Seq<u8>, Seq<u8>>,
    b: Seq<u8>,
    id: Seq<char>,
    b2: Seq<u8>,
    id2: Seq<char>,
)
    requires
        !spec_installed(m),
        spec_decode_user(b) is Some,
    ensures
        spec_installed(spec_install(m, b, id)),
        spec_install(spec_install(m, b, id), b2, id2) == spec_install(m, b, id),
{
}

/// Law: the probe answers "ok" before the first successful install and
/// "gone" after it.
pub proof fn lemma_probe_consistency(m: Map<Seq<u8>, Seq<u8>>, b: Seq<u8>, id: Seq<char>)
    requires
        !spec_installed(m),
        spec_decode_user(b) is Some,
    ensures
        spec_probe(m) == STATUS_OK,
        spec_probe(spec_install(m, b, id)) == STATUS_GONE,
{
}

} // verus!
