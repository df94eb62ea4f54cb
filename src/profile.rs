//! Browser profiles: named, isolated data directories with their own settings, one of
//! which is active.

use vstd::prelude::*;
use vstd::string::StringExecFns;
use std::path::PathBuf;
use crate::engine::ProfileProxyConfig;
use crate::proxy::copy_opt_string;

verus! {

/// Relies on `PathBuf::clone`, which yields an equal path.
pub assume_specification[ <std::path::PathBuf as Clone>::clone ](p: &PathBuf) -> (r: PathBuf)
    ensures
        r == *p,
;

/// Relies on `std::path::Path::join`: the entry named `name` under `base`. Nothing is
/// assumed of the resulting path.
#[verifier::external_body]
pub(crate) fn join_path(base: &PathBuf, name: &String) -> (r: PathBuf) {
    base.join(name)
}

/// Relies on `uuid::Uuid::new_v4` and its `Display`: a random version-4 UUID in the
/// hyphenated lowercase form, 36 characters long. It panics only when the operating
/// system cannot supply random bytes.
#[verifier::external_body]
fn new_profile_id() -> (r: String)
    ensures
        r@.len() == 36,
{
    uuid::Uuid::new_v4().to_string()
}

/// Relies on `chrono::Utc::now().timestamp()`: the current time in seconds since the
/// Unix epoch. It panics only when the system clock is set before the epoch.
#[verifier::external_body]
fn now_timestamp() -> (r: i64) {
    chrono::Utc::now().timestamp()
}

/// A geographic position in millionths of a degree, with its accuracy in metres.
#[derive(Debug, Clone, Copy, PartialEq, Eq, Structural)]
pub struct GeoLocation {
    pub latitude_micro: i64,
    pub longitude_micro: i64,
    pub accuracy_m: u64,
}

/// Whether `s` holds the default settings: no proxy, no overrides, no protection, empty
/// language.
pub open spec fn default_settings(s: ProfileSettings) -> bool {
    &&& !s.proxy_enabled
    &&& s.proxy_config is None
    &&& s.user_agent is None
    &&& s.language@.len() == 0
    &&& s.timezone is None
    &&& s.geolocation is None
    &&& !s.fingerprint_protection
}

/// Settings that belong to one profile.
#[derive(Debug, Clone)]
pub struct ProfileSettings {
    pub proxy_enabled: bool,
    pub proxy_config: Option<ProfileProxyConfig>,
    pub user_agent: Option<String>,
    pub language: String,
    pub timezone: Option<String>,
    pub geolocation: Option<GeoLocation>,
    pub fingerprint_protection: bool,
}

impl Default for ProfileSettings {
    /// No proxy, no overrides, no protection, empty language.
    fn default() -> (r: Self)
        ensures
            default_settings(r),
    {
        ProfileSettings {
            proxy_enabled: false,
            proxy_config: None,
            user_agent: None,
            language: String::new(),
            timezone: None,
            geolocation: None,
            fingerprint_protection: false,
        }
    }
}

impl ProfileProxyConfig {
    /// A field-by-field copy.
    pub fn copy(&self) -> (r: Self)
        ensures
            r == *self,
    {
        ProfileProxyConfig {
            host: self.host.clone(),
            port: self.port,
            protocol: self.protocol.clone(),
            username: copy_opt_string(&self.username),
            password: copy_opt_string(&self.password),
        }
    }
}

impl ProfileSettings {
    /// A field-by-field copy.
    pub fn copy(&self) -> (r: Self)
        ensures
            r == *self,
    {
        ProfileSettings {
            proxy_enabled: self.proxy_enabled,
            proxy_config: match &self.proxy_config {
                Some(c) => Some(c.copy()),
                None => None,
            },
            user_agent: copy_opt_string(&self.user_agent),
            language: self.language.clone(),
            timezone: copy_opt_string(&self.timezone),
            geolocation: self.geolocation,
            fingerprint_protection: self.fingerprint_protection,
        }
    }
}

/// A browser profile.
#[derive(Debug, Clone)]
pub struct BrowserProfile {
    pub id: String,
    pub name: String,
    /// Seconds since the Unix epoch.
    pub created_at: i64,
    /// Seconds since the Unix epoch.
    pub last_used: i64,
    pub data_dir: PathBuf,
    pub settings: ProfileSettings,
    pub is_default: bool,
}

impl BrowserProfile {
    /// A field-by-field copy.
    pub fn copy(&self) -> (r: Self)
        ensures
            r == *self,
    {
        BrowserProfile {
            id: self.id.clone(),
            name: self.name.clone(),
            created_at: self.created_at,
            last_used: self.last_used,
            data_dir: self.data_dir.clone(),
            settings: self.settings.copy(),
            is_default: self.is_default,
        }
    }
}

/// Why a profile operation failed.
#[derive(Debug, Clone, Copy, PartialEq, Eq, Structural)]
pub enum ProfileError {
    /// No profile has the given id.
    NotFound,
}

/// Position of the profile with id `id`, searching from the back.
pub open spec fn profile_position(ps: Seq<BrowserProfile>, id: Seq<char>) -> Option<int>
    decreases ps.len(),
{
    if ps.len() == 0 {
        None
    } else if ps.last().id@ == id {
        Some(ps.len() - 1)
    } else {
        profile_position(ps.drop_last(), id)
    }
}

/// The profiles after storing `p`: it replaces the profile with its id, or is appended.
pub open spec fn stored(ps: Seq<BrowserProfile>, p: BrowserProfile) -> Seq<BrowserProfile> {
    match profile_position(ps, p.id@) {
        Some(j) => ps.update(j, p),
        None => ps.push(p),
    }
}

/// The profile with id `id`, if any.
pub open spec fn profile_with(ps: Seq<BrowserProfile>, id: Seq<char>) -> Option<BrowserProfile> {
    match profile_position(ps, id) {
        Some(j) => Some(ps[j]),
        None => None,
    }
}

proof fn lemma_profile_position(ps: Seq<BrowserProfile>, id: Seq<char>)
    ensures
        profile_position(ps, id) matches Some(j) ==> 0 <= j < ps.len() && ps[j].id@ == id,
        profile_position(ps, id) is None ==> forall|m: int| 0 <= m < ps.len() ==> (#[trigger] ps[m]).id@ != id,
    decreases ps.len(),
{
    if ps.len() > 0 && ps.last().id@ != id {
        lemma_profile_position(ps.drop_last(), id);
        if profile_position(ps, id) is None {
            assert forall|m: int| 0 <= m < ps.len() implies (#[trigger] ps[m]).id@ != id by {
                if m < ps.len() - 1 {
                    assert(ps.drop_last()[m] == ps[m]);
                }
            }
        }
    }
}

/// Keeps the profiles, the active one, and the directory under which profile data lives.
/// The profiles are a `Vec` with unique ids rather than a map keyed by id: vstd specifies
/// insertion into a `HashMap` with `String` keys only under a key model that it does not
/// establish for `String`, so no contract over such a map could be proved.
pub struct BrowserProfileManager {
    profiles: Vec<BrowserProfile>,
    active_profile_id: Option<String>,
    base_data_dir: PathBuf,
}

impl BrowserProfileManager {
    /// The profiles, in the order they were first stored.
    pub closed spec fn profiles(&self) -> Seq<BrowserProfile> {
        self.profiles@
    }

    /// Id of the active profile, if one was switched to.
    pub closed spec fn active_id(&self) -> Option<Seq<char>> {
        match self.active_profile_id {
            Some(s) => Some(s@),
            None => None,
        }
    }

    pub closed spec fn base_dir(&self) -> PathBuf {
        self.base_data_dir
    }

    /// No two profiles share an id.
    pub open spec fn wf(&self) -> bool {
        forall|i: int, j: int| 0 <= i < j < self.profiles().len()
            ==> (#[trigger] self.profiles()[i]).id@ != (#[trigger] self.profiles()[j]).id@
    }

    /// A manager with no profiles, keeping profile data under `base_data_dir`.
    pub fn new(base_data_dir: PathBuf) -> (r: Self)
        ensures
            r.wf(),
            r.profiles().len() == 0,
            r.active_id() is None,
            r.base_dir() == base_data_dir,
    {
        BrowserProfileManager { profiles: Vec::new(), active_profile_id: None, base_data_dir }
    }

    fn find(&self, id: &String) -> (r: Option<usize>)
        ensures
            r matches Some(j) ==> profile_position(self.profiles(), id@) == Some(j as int),
            r is None ==> profile_position(self.profiles(), id@) is None,
    {
        let mut i: usize = self.profiles.len();
        proof {
            assert(self.profiles@.take(i as int) =~= self.profiles@);
        }
        while i > 0
            invariant
                i <= self.profiles@.len(),
                profile_position(self.profiles@, id@) == profile_position(self.profiles@.take(i as int), id@),
            decreases i,
        {
            proof {
                assert(self.profiles@.take(i as int).drop_last() =~= self.profiles@.take(i - 1));
            }
            if self.profiles[i - 1].id == *id {
                return Some(i - 1);
            }
            i = i - 1;
        }
        None
    }

    /// Stores `p`, replacing the profile with the same id.
    fn store(&mut self, p: BrowserProfile)
        requires
            old(self).wf(),
        ensures
            final(self).wf(),
            final(self).profiles() == stored(old(self).profiles(), p),
            final(self).active_id() == old(self).active_id(),
            final(self).base_dir() == old(self).base_dir(),
    {
        let ghost id = p.id@;
        proof {
            lemma_profile_position(self.profiles@, id);
        }
        match self.find(&p.id) {
            Some(j) => {
                self.profiles.set(j, p);
            },
            None => {
                self.profiles.push(p);
            },
        }
    }

    /// Creates a profile named `name` with id `id`, created and last used at `now`, with
    /// default settings and data under `data_dir`. Returns a copy of it.
    pub fn create_profile_with(
        &mut self,
        id: String,
        name: &str,
        now: i64,
        is_default: bool,
        data_dir: PathBuf,
    ) -> (r: BrowserProfile)
        requires
            old(self).wf(),
        ensures
            final(self).wf(),
            r.id == id,
            r.name@ == name@,
            r.created_at == now && r.last_used == now,
            r.data_dir == data_dir,
            default_settings(r.settings),
            r.is_default == is_default,
            final(self).profiles() == stored(old(self).profiles(), r),
            final(self).active_id() == old(self).active_id(),
    {
        let p = BrowserProfile {
            id,
            name: <String as StringExecFns>::from_str(name),
            created_at: now,
            last_used: now,
            data_dir,
            settings: ProfileSettings::default(),
            is_default,
        };
        let r = p.copy();
        self.store(p);
        r
    }

    /// Creates a profile named `name` with a fresh random id, stamped with the current
    /// time, its data in a directory named by the id under the base directory. The
    /// directory itself is made by the caller.
    pub fn create_profile(&mut self, name: &str, is_default: bool) -> (r: BrowserProfile)
        requires
            old(self).wf(),
        ensures
            final(self).wf(),
            r.id@.len() == 36,
            r.name@ == name@,
            r.created_at == r.last_used,
            default_settings(r.settings),
            r.is_default == is_default,
            final(self).profiles() == stored(old(self).profiles(), r),
            final(self).active_id() == old(self).active_id(),
    {
        let id = new_profile_id();
        let now = now_timestamp();
        let dir = join_path(&self.base_data_dir, &id);
        self.create_profile_with(id, name, now, is_default, dir)
    }

    /// A fresh random id for a new profile and the directory under the base directory
    /// that its data is to live in, so that the caller can make the directory before
    /// the profile is stored. Nothing is stored.
    pub fn new_profile_location(&self) -> (r: (String, PathBuf))
        ensures
            r.0@.len() == 36,
    {
        let id = new_profile_id();
        let dir = join_path(&self.base_data_dir, &id);
        (id, dir)
    }

    /// Stores a profile named `name` with id `id` and data under `data_dir`, stamped with
    /// the current time and default settings (see `create_profile_with`).
    pub fn create_profile_at(&mut self, id: String, data_dir: PathBuf, name: &str, is_default: bool) -> (r: BrowserProfile)
        requires
            old(self).wf(),
        ensures
            final(self).wf(),
            r.id == id,
            r.name@ == name@,
            r.created_at == r.last_used,
            r.data_dir == data_dir,
            default_settings(r.settings),
            r.is_default == is_default,
            final(self).profiles() == stored(old(self).profiles(), r),
            final(self).active_id() == old(self).active_id(),
    {
        let now = now_timestamp();
        self.create_profile_with(id, name, now, is_default, data_dir)
    }

    /// Takes in a profile read from an export: it gets the id `new_id` and its data
    /// under `data_dir`, and keeps everything else. Returns a copy of it.
    pub fn import_profile_with(&mut self, profile: BrowserProfile, new_id: String, data_dir: PathBuf) -> (r: BrowserProfile)
        requires
            old(self).wf(),
        ensures
            final(self).wf(),
            r == (BrowserProfile { id: new_id, data_dir, ..profile }),
            final(self).profiles() == stored(old(self).profiles(), r),
            final(self).active_id() == old(self).active_id(),
    {
        let mut p = profile;
        p.id = new_id;
        p.data_dir = data_dir;
        let r = p.copy();
        self.store(p);
        r
    }

    /// Takes in a profile read from an export under a fresh random id, its data in a
    /// directory named by that id under the base directory.
    pub fn import_profile(&mut self, profile: BrowserProfile) -> (r: BrowserProfile)
        requires
            old(self).wf(),
        ensures
            final(self).wf(),
            r.id@.len() == 36,
            r.name == profile.name && r.settings == profile.settings && r.is_default == profile.is_default,
            r.created_at == profile.created_at && r.last_used == profile.last_used,
            final(self).profiles() == stored(old(self).profiles(), r),
            final(self).active_id() == old(self).active_id(),
    {
        let id = new_profile_id();
        let dir = join_path(&self.base_data_dir, &id);
        self.import_profile_with(profile, id, dir)
    }

    /// A copy of the profile with id `id`.
    pub fn get_profile(&self, id: &str) -> (r: Option<BrowserProfile>)
        ensures
            r == profile_with(self.profiles(), id@),
    {
        let key = <String as StringExecFns>::from_str(id);
        proof {
            lemma_profile_position(self.profiles@, key@);
        }
        match self.find(&key) {
            Some(j) => Some(self.profiles[j].copy()),
            None => None,
        }
    }

    /// Copies of all profiles, in the order they were first stored.
    pub fn list_profiles(&self) -> (r: Vec<BrowserProfile>)
        ensures
            r@ == self.profiles(),
    {
        let mut out: Vec<BrowserProfile> = Vec::new();
        let mut i: usize = 0;
        while i < self.profiles.len()
            invariant
                i <= self.profiles@.len(),
                out@ == self.profiles@.take(i as int),
            decreases self.profiles@.len() - i,
        {
            out.push(self.profiles[i].copy());
            proof {
                assert(self.profiles@.take(i + 1) =~= self.profiles@.take(i as int).push(self.profiles@[i as int]));
            }
            i = i + 1;
        }
        proof {
            assert(self.profiles@.take(self.profiles@.len() as int) =~= self.profiles@);
        }
        out
    }

    /// Makes the profile with id `id` the active one, marking it used at `now`; fails
    /// with `NotFound`, changing nothing, when there is none.
    pub fn switch_profile_at(&mut self, id: &str, now: i64) -> (r: Result<(), ProfileError>)
        requires
            old(self).wf(),
        ensures
            final(self).wf(),
            final(self).base_dir() == old(self).base_dir(),
            match profile_position(old(self).profiles(), id@) {
                Some(j) => r is Ok && final(self).active_id() == Some(id@) && final(self).profiles()
                    == old(self).profiles().update(j, BrowserProfile { last_used: now, ..old(self).profiles()[j] }),
                None => r == Err::<(), ProfileError>(ProfileError::NotFound) && final(self).profiles()
                    == old(self).profiles() && final(self).active_id() == old(self).active_id(),
            },
    {
        let key = <String as StringExecFns>::from_str(id);
        proof {
            lemma_profile_position(self.profiles@, key@);
        }
        match self.find(&key) {
            Some(j) => {
                let ghost before = self.profiles@;
                self.profiles[j].last_used = now;
                proof {
                    assert forall|a: int, b: int| 0 <= a < b < self.profiles@.len()
                        implies (#[trigger] self.profiles@[a]).id@ != (#[trigger] self.profiles@[b]).id@ by {
                        assert(before[a].id == self.profiles@[a].id);
                        assert(before[b].id == self.profiles@[b].id);
                    }
                }
                self.active_profile_id = Some(key);
                Ok(())
            },
            None => Err(ProfileError::NotFound),
        }
    }

    /// Makes the profile with id `id` the active one, marking it used now.
    pub fn switch_profile(&mut self, id: &str) -> (r: Result<(), ProfileError>)
        requires
            old(self).wf(),
        ensures
            final(self).wf(),
            r is Ok <==> profile_position(old(self).profiles(), id@) is Some,
            r is Ok ==> final(self).active_id() == Some(id@),
            r is Err ==> final(self).profiles() == old(self).profiles() && final(self).active_id() == old(self).active_id(),
    {
        let now = now_timestamp();
        self.switch_profile_at(id, now)
    }

    /// Removes the profile with id `id` and hands it back, so that its data directory
    /// can be removed; `None` when there is no such profile.
    pub fn delete_profile(&mut self, id: &str) -> (r: Option<BrowserProfile>)
        requires
            old(self).wf(),
        ensures
            final(self).wf(),
            final(self).active_id() == old(self).active_id(),
            match profile_position(old(self).profiles(), id@) {
                Some(j) => r == Some(old(self).profiles()[j]) && final(self).profiles() == old(self).profiles().remove(j),
                None => r is None && final(self).profiles() == old(self).profiles(),
            },
    {
        let key = <String as StringExecFns>::from_str(id);
        proof {
            lemma_profile_position(self.profiles@, key@);
        }
        match self.find(&key) {
            Some(j) => {
                let ghost before = self.profiles@;
                let p = self.profiles.remove(j);
                proof {
                    assert forall|a: int, b: int| 0 <= a < b < self.profiles@.len()
                        implies (#[trigger] self.profiles@[a]).id@ != (#[trigger] self.profiles@[b]).id@ by {
                        let a0 = if a < j { a } else { a + 1 };
                        let b0 = if b < j { b } else { b + 1 };
                        assert(self.profiles@[a] == before[a0]);
                        assert(self.profiles@[b] == before[b0]);
                    }
                }
                Some(p)
            },
            None => None,
        }
    }

    /// Replaces the settings of the profile with id `id`; fails with `NotFound`,
    /// changing nothing, when there is none.
    pub fn update_settings(&mut self, id: &str, settings: ProfileSettings) -> (r: Result<(), ProfileError>)
        requires
            old(self).wf(),
        ensures
            final(self).wf(),
            final(self).active_id() == old(self).active_id(),
            match profile_position(old(self).profiles(), id@) {
                Some(j) => r is Ok && final(self).profiles() == old(self).profiles().update(
                    j,
                    BrowserProfile { settings, ..old(self).profiles()[j] },
                ),
                None => r == Err::<(), ProfileError>(ProfileError::NotFound) && final(self).profiles()
                    == old(self).profiles(),
            },
    {
        let key = <String as StringExecFns>::from_str(id);
        proof {
            lemma_profile_position(self.profiles@, key@);
        }
        match self.find(&key) {
            Some(j) => {
                let ghost before = self.profiles@;
                self.profiles[j].settings = settings;
                proof {
                    assert forall|a: int, b: int| 0 <= a < b < self.profiles@.len()
                        implies (#[trigger] self.profiles@[a]).id@ != (#[trigger] self.profiles@[b]).id@ by {
                        assert(before[a].id == self.profiles@[a].id);
                        assert(before[b].id == self.profiles@[b].id);
                    }
                }
                Ok(())
            },
            None => Err(ProfileError::NotFound),
        }
    }

    /// A copy of the active profile, if one is active and still present.
    pub fn get_active_profile(&self) -> (r: Option<BrowserProfile>)
        ensures
            r == match self.active_id() {
                Some(id) => profile_with(self.profiles(), id),
                None => None,
            },
    {
        match &self.active_profile_id {
            Some(id) => {
                proof {
                    lemma_profile_position(self.profiles@, id@);
                }
                match self.find(id) {
                    Some(j) => Some(self.profiles[j].copy()),
                    None => None,
                }
            },
            None => None,
        }
    }
}

} // verus!
