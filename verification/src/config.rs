//! Connection profiles and application settings: where they are kept, and
//! how a profile list is read, updated and pruned.
use vstd::prelude::*;
use crate::models::{ProfileConfig, AppConfig};
use crate::crypto::{Encryptor, EncryptError, encrypt_spec, decrypt_spec, string_result};
use crate::text::{path_join, path_join_spec, str_eq};
use crate::home::home_dir;

verus! {

/// Why a configuration operation failed.
#[derive(Debug)]
pub enum ConfigError {
    /// No home directory could be found.
    HomeDirUnavailable,
    /// No profile has the given name.
    ProfileNotFound(String),
}

/// The first profile named `name`, if any.
pub open spec fn lookup(ps: Seq<ProfileConfig>, name: Seq<char>) -> Option<ProfileConfig>
    decreases ps.len(),
{
    if ps.len() == 0 {
        None
    } else if ps[0].name@ == name {
        Some(ps[0])
    } else {
        lookup(ps.drop_first(), name)
    }
}

/// The profiles not named `name`, in their order.
pub open spec fn without_name(ps: Seq<ProfileConfig>, name: Seq<char>) -> Seq<ProfileConfig>
    decreases ps.len(),
{
    if ps.len() == 0 {
        ps
    } else if ps[0].name@ == name {
        without_name(ps.drop_first(), name)
    } else {
        seq![ps[0]] + without_name(ps.drop_first(), name)
    }
}

/// The profile list after saving `p`: any profile of the same name is
/// removed and `p` comes last.
pub open spec fn saved(ps: Seq<ProfileConfig>, p: ProfileConfig) -> Seq<ProfileConfig> {
    without_name(ps, p.name@).push(p)
}

/// Whether some profile is named `name`.
pub open spec fn has_name(ps: Seq<ProfileConfig>, name: Seq<char>) -> bool {
    exists|i: int| 0 <= i < ps.len() && (#[trigger] ps[i]).name@ == name
}

pub proof fn lemma_without_concat(a: Seq<ProfileConfig>, b: Seq<ProfileConfig>, name: Seq<char>)
    ensures
        without_name(a + b, name) == without_name(a, name) + without_name(b, name),
    decreases a.len(),
{
    if a.len() == 0 {
        assert(a + b =~= b);
    } else {
        assert((a + b).drop_first() =~= a.drop_first() + b);
        lemma_without_concat(a.drop_first(), b, name);
        if a[0].name@ != name {
            assert(seq![a[0]] + without_name(a.drop_first(), name) + without_name(b, name)
                =~= seq![a[0]] + (without_name(a.drop_first(), name) + without_name(b, name)));
        }
    }
}

/// No profile left by `without_name` carries the name; every one of them
/// comes from the list.
pub proof fn lemma_without_members(ps: Seq<ProfileConfig>, name: Seq<char>)
    ensures
        forall|i: int| 0 <= i < without_name(ps, name).len() ==> (#[trigger] without_name(ps, name)[i]).name@ != name,
        without_name(ps, name).len() <= ps.len(),
        without_name(ps, name).len() == ps.len() <==> !has_name(ps, name),
    decreases ps.len(),
{
    if ps.len() > 0 {
        lemma_without_members(ps.drop_first(), name);
        let rest = without_name(ps.drop_first(), name);
        if ps[0].name@ != name {
            assert forall|i: int| 0 <= i < without_name(ps, name).len() implies (#[trigger] without_name(ps, name)[i]).name@ != name by {
                if i > 0 {
                    assert(without_name(ps, name)[i] == rest[i - 1]);
                }
            }
            if has_name(ps, name) {
                let k = choose|k: int| 0 <= k < ps.len() && (#[trigger] ps[k]).name@ == name;
                assert(ps.drop_first()[k - 1] == ps[k]);
            }
            if has_name(ps.drop_first(), name) {
                let k = choose|k: int| 0 <= k < ps.drop_first().len() && (#[trigger] ps.drop_first()[k]).name@ == name;
                assert(ps[k + 1] == ps.drop_first()[k]);
            }
        } else {
            assert(ps[0].name@ == name);
            assert(has_name(ps, name));
        }
    }
}

/// `without_name` on a single profile.
pub proof fn lemma_without_single(p: ProfileConfig, name: Seq<char>)
    ensures
        without_name(seq![p], name) == (if p.name@ == name {
            Seq::<ProfileConfig>::empty()
        } else {
            seq![p]
        }),
{
    let s = seq![p];
    assert(s.drop_first() =~= Seq::<ProfileConfig>::empty());
    assert(without_name(s.drop_first(), name) =~= Seq::<ProfileConfig>::empty());
    assert(seq![p] + Seq::<ProfileConfig>::empty() =~= seq![p]);
}

/// `lookup` finds the first profile of the name.
pub proof fn lemma_lookup_at(ps: Seq<ProfileConfig>, name: Seq<char>, i: int)
    requires
        0 <= i < ps.len(),
        ps[i].name@ == name,
        forall|j: int| 0 <= j < i ==> (#[trigger] ps[j]).name@ != name,
    ensures
        lookup(ps, name) == Some(ps[i]),
    decreases i,
{
    if i > 0 {
        assert(ps[0].name@ != name);
        assert forall|j: int| 0 <= j < i - 1 implies (#[trigger] ps.drop_first()[j]).name@ != name by {
            assert(ps.drop_first()[j] == ps[j + 1]);
        }
        lemma_lookup_at(ps.drop_first(), name, i - 1);
    }
}

/// `lookup` finds nothing exactly when no profile carries the name.
pub proof fn lemma_lookup_none(ps: Seq<ProfileConfig>, name: Seq<char>)
    ensures
        lookup(ps, name) is None <==> !has_name(ps, name),
        lookup(ps, name) matches Some(p) ==> p.name@ == name,
    decreases ps.len(),
{
    if ps.len() > 0 {
        lemma_lookup_none(ps.drop_first(), name);
        if has_name(ps.drop_first(), name) {
            let k = choose|k: int| 0 <= k < ps.drop_first().len() && (#[trigger] ps.drop_first()[k]).name@ == name;
            assert(ps[k + 1] == ps.drop_first()[k]);
        }
        if has_name(ps, name) && ps[0].name@ != name {
            let k = choose|k: int| 0 <= k < ps.len() && (#[trigger] ps[k]).name@ == name;
            assert(ps.drop_first()[k - 1] == ps[k]);
        }
    }
}

/// Removing one name leaves `lookup` of every other name as it was.
pub proof fn lemma_lookup_without_other(ps: Seq<ProfileConfig>, name: Seq<char>, other: Seq<char>)
    requires
        other != name,
    ensures
        lookup(without_name(ps, name), other) == lookup(ps, other),
    decreases ps.len(),
{
    if ps.len() > 0 {
        lemma_lookup_without_other(ps.drop_first(), name, other);
        if ps[0].name@ != name {
            let w = seq![ps[0]] + without_name(ps.drop_first(), name);
            assert(w[0] == ps[0]);
            assert(w.drop_first() =~= without_name(ps.drop_first(), name));
        }
    }
}

/// `lookup` after appending one profile.
pub proof fn lemma_lookup_push(ps: Seq<ProfileConfig>, p: ProfileConfig, name: Seq<char>)
    ensures
        lookup(ps.push(p), name) == (if lookup(ps, name) is Some {
            lookup(ps, name)
        } else if p.name@ == name {
            Some(p)
        } else {
            None::<ProfileConfig>
        }),
    decreases ps.len(),
{
    if ps.len() == 0 {
        assert(ps.push(p).drop_first() =~= Seq::<ProfileConfig>::empty());
    } else {
        assert(ps.push(p).drop_first() =~= ps.drop_first().push(p));
        lemma_lookup_push(ps.drop_first(), p, name);
    }
}

/// `without_name` removes every profile of the name at once.
pub proof fn lemma_without_idempotent(ps: Seq<ProfileConfig>, name: Seq<char>)
    ensures
        without_name(without_name(ps, name), name) == without_name(ps, name),
    decreases ps.len(),
{
    if ps.len() > 0 {
        lemma_without_idempotent(ps.drop_first(), name);
        if ps[0].name@ != name {
            let w = seq![ps[0]] + without_name(ps.drop_first(), name);
            assert(w.drop_first() =~= without_name(ps.drop_first(), name));
        }
    }
}

/// Reading a profile back after saving it gives the saved profile.
pub proof fn law_get_after_save(ps: Seq<ProfileConfig>, p: ProfileConfig)
    ensures
        lookup(saved(ps, p), p.name@) == Some(p),
{
    lemma_without_members(ps, p.name@);
    lemma_lookup_none(without_name(ps, p.name@), p.name@);
    lemma_lookup_push(without_name(ps, p.name@), p, p.name@);
}

/// Saving a profile leaves every profile of another name as it was.
pub proof fn law_save_keeps_others(ps: Seq<ProfileConfig>, p: ProfileConfig, other: Seq<char>)
    requires
        other != p.name@,
    ensures
        lookup(saved(ps, p), other) == lookup(ps, other),
{
    lemma_lookup_without_other(ps, p.name@, other);
    lemma_lookup_push(without_name(ps, p.name@), p, other);
}

/// Saving the same profile twice gives the same list as saving it once.
pub proof fn law_save_idempotent(ps: Seq<ProfileConfig>, p: ProfileConfig)
    ensures
        saved(saved(ps, p), p) == saved(ps, p),
{
    let w = without_name(ps, p.name@);
    lemma_without_concat(w, seq![p], p.name@);
    assert(w.push(p) =~= w + seq![p]);
    lemma_without_idempotent(ps, p.name@);
    lemma_without_single(p, p.name@);
    assert(without_name(w.push(p), p.name@) =~= w);
}

/// After saving, exactly one profile carries the saved name: the last one.
pub proof fn law_save_single_name(ps: Seq<ProfileConfig>, p: ProfileConfig)
    ensures
        forall|i: int| 0 <= i < saved(ps, p).len() && (#[trigger] saved(ps, p)[i]).name@ == p.name@ ==> i == saved(ps, p).len() - 1,
{
    lemma_without_members(ps, p.name@);
}

/// After deleting a name, no profile of that name is found.
pub proof fn law_get_after_delete(ps: Seq<ProfileConfig>, name: Seq<char>)
    ensures
        lookup(without_name(ps, name), name) is None,
{
    lemma_without_members(ps, name);
    lemma_lookup_none(without_name(ps, name), name);
}

/// Deleting a name leaves every profile of another name as it was.
pub proof fn law_delete_keeps_others(ps: Seq<ProfileConfig>, name: Seq<char>, other: Seq<char>)
    requires
        other != name,
    ensures
        lookup(without_name(ps, name), other) == lookup(ps, other),
{
    lemma_lookup_without_other(ps, name, other);
}

/// The profiles of `ps` not named `name`, as a new list.
fn retain_other_names(ps: &Vec<ProfileConfig>, name: &str) -> (r: Vec<ProfileConfig>)
    ensures
        r@ == without_name(ps@, name@),
{
    let mut out: Vec<ProfileConfig> = Vec::new();
    let mut i: usize = 0;
    while i < ps.len()
        invariant
            i <= ps@.len(),
            out@ == without_name(ps@.take(i as int), name@),
        decreases ps@.len() - i,
    {
        let p = &ps[i];
        proof {
            assert(ps@.take(i + 1) =~= ps@.take(i as int) + seq![ps@[i as int]]);
            lemma_without_concat(ps@.take(i as int), seq![ps@[i as int]], name@);
            lemma_without_single(ps@[i as int], name@);
        }
        if !str_eq(p.name.as_str(), name) {
            out.push(p.copy());
        }
        i = i + 1;
    }
    proof {
        assert(ps@.take(ps@.len() as int) =~= ps@);
    }
    out
}

/// Where the profiles and settings are kept, and the encryptor for their
/// credentials.
pub struct ConfigService {
    config_dir: String,
    encryptor: Encryptor,
}

impl ConfigService {
    /// The configuration directory.
    pub closed spec fn dir(&self) -> Seq<char> {
        self.config_dir@
    }

    /// The key that credentials are encrypted with.
    pub closed spec fn key(&self) -> Seq<u8> {
        self.encryptor.key()
    }

    /// The configuration directory: `.es_client` under the home directory.
    pub fn get_config_dir() -> (r: Result<String, ConfigError>)
        ensures
            r matches Ok(d) ==> exists|home: Seq<char>| #[trigger] path_join_spec(home, ".es_client"@) == d@,
            r matches Err(e) ==> e == ConfigError::HomeDirUnavailable,
    {
        match home_dir() {
            None => Err(ConfigError::HomeDirUnavailable),
            Some(home) => Ok(Self::config_dir_under(home.as_str())),
        }
    }

    /// The configuration directory under the given home directory.
    pub fn config_dir_under(home: &str) -> (r: String)
        ensures
            r@ == path_join_spec(home@, ".es_client"@),
    {
        path_join(home, ".es_client")
    }

    /// A service over the configuration directory under the given home
    /// directory, with the given encryptor.
    pub fn new_under(encryptor: Encryptor, home: &str) -> (r: ConfigService)
        ensures
            r.key() == encryptor.key(),
            r.dir() == path_join_spec(home@, ".es_client"@),
    {
        ConfigService { config_dir: Self::config_dir_under(home), encryptor }
    }

    /// A service over the configuration directory under the home
    /// directory, with the given encryptor. The caller creates the directory.
    pub fn new(encryptor: Encryptor) -> (r: Result<ConfigService, ConfigError>)
        ensures
            r matches Ok(s) ==> s.key() == encryptor.key(),
            r matches Ok(s) ==> exists|home: Seq<char>| #[trigger] path_join_spec(home, ".es_client"@) == s.dir(),
            r matches Err(e) ==> e == ConfigError::HomeDirUnavailable,
    {
        match home_dir() {
            None => Err(ConfigError::HomeDirUnavailable),
            Some(home) => Ok(Self::new_under(encryptor, home.as_str())),
        }
    }

    /// The configuration directory.
    pub fn config_dir(&self) -> (r: &str)
        ensures
            r@ == self.dir(),
    {
        self.config_dir.as_str()
    }

    /// The encryptor for credentials.
    pub fn encryptor(&self) -> (r: &Encryptor)
        ensures
            r.key() == self.key(),
    {
        &self.encryptor
    }

    /// Path of `profiles.toml` in the configuration directory.
    pub fn get_profiles_path(&self) -> (r: String)
        ensures
            r@ == path_join_spec(self.dir(), "profiles.toml"@),
    {
        path_join(self.config_dir.as_str(), "profiles.toml")
    }

    /// Path of `config.toml` in the configuration directory.
    pub fn get_config_path(&self) -> (r: String)
        ensures
            r@ == path_join_spec(self.dir(), "config.toml"@),
    {
        path_join(self.config_dir.as_str(), "config.toml")
    }

    /// The first of the loaded profiles named `name`.
    pub fn get_profile(&self, profiles: &Vec<ProfileConfig>, name: &str) -> (r: Result<ProfileConfig, ConfigError>)
        ensures
            r is Ok <==> lookup(profiles@, name@) is Some,
            r matches Ok(p) ==> lookup(profiles@, name@) == Some(p),
            r matches Err(e) ==> e is ProfileNotFound && e->ProfileNotFound_0@ == name@,
    {
        let mut i: usize = 0;
        while i < profiles.len()
            invariant
                i <= profiles@.len(),
                forall|j: int| 0 <= j < i ==> (#[trigger] profiles@[j]).name@ != name@,
            decreases profiles@.len() - i,
        {
            if str_eq(profiles[i].name.as_str(), name) {
                proof {
                    lemma_lookup_at(profiles@, name@, i as int);
                }
                return Ok(profiles[i].copy());
            }
            i = i + 1;
        }
        proof {
            lemma_lookup_none(profiles@, name@);
        }
        Err(ConfigError::ProfileNotFound(name.to_owned()))
    }

    /// Saves `profile` into the loaded profiles: one of the same name is
    /// replaced, and the saved profile comes last.
    pub fn save_profile(&self, profiles: &mut Vec<ProfileConfig>, profile: &ProfileConfig)
        ensures
            final(profiles)@ == saved(old(profiles)@, *profile),
            lookup(final(profiles)@, profile.name@) == Some(*profile),
    {
        let mut kept = retain_other_names(profiles, profile.name.as_str());
        kept.push(profile.copy());
        *profiles = kept;
        proof {
            law_get_after_save(old(profiles)@, *profile);
        }
    }

    /// Deletes every loaded profile named `name`; fails, changing nothing,
    /// when there is none.
    pub fn delete_profile(&self, profiles: &mut Vec<ProfileConfig>, name: &str) -> (r: Result<(), ConfigError>)
        ensures
            r is Ok <==> has_name(old(profiles)@, name@),
            r is Ok ==> final(profiles)@ == without_name(old(profiles)@, name@),
            r is Err ==> final(profiles)@ == old(profiles)@,
            r matches Err(e) ==> e is ProfileNotFound && e->ProfileNotFound_0@ == name@,
    {
        let kept = retain_other_names(profiles, name);
        proof {
            lemma_without_members(profiles@, name@);
        }
        if kept.len() == profiles.len() {
            return Err(ConfigError::ProfileNotFound(name.to_owned()));
        }
        *profiles = kept;
        Ok(())
    }

    /// Encrypts a password for storage.
    pub fn encrypt_password(&self, password: &str) -> (r: Result<String, EncryptError>)
        ensures
            string_result(r) == encrypt_spec(self.key(), password@),
            r matches Ok(h) ==> decrypt_spec(self.key(), h@) is Ok && decrypt_spec(self.key(), h@)->Ok_0 == password@,
    {
        self.encryptor.encrypt(password)
    }

    /// Decrypts a stored password.
    pub fn decrypt_password(&self, encrypted: &str) -> (r: Result<String, EncryptError>)
        ensures
            string_result(r) == decrypt_spec(self.key(), encrypted@),
    {
        self.encryptor.decrypt(encrypted)
    }

    /// The settings to use: the saved ones, or the defaults when none are
    /// saved.
    pub fn load_app_config(&self, saved_config: Option<AppConfig>) -> (r: AppConfig)
        ensures
            saved_config matches Some(c) ==> r == c,
            saved_config is None ==> r.log_level@ == "info"@ && r.theme@ == "dark"@ && r.default_profile is None
                && r.database_path@ == "~/.es_client/data.duckdb"@ && r.max_memory@ == "2GB"@ && r.recent_profiles@.len() == 0,
    {
        match saved_config {
            Some(c) => c,
            None => AppConfig::default(),
        }
    }
}

} // verus!
