//! The application's settings, read from environment variables.

use vstd::prelude::*;
use crate::text::same_text;

verus! {

/// Access to settings by key.
pub trait Config {
    /// The value of the setting `key`, if there is one.
    spec fn value_of(&self, key: Seq<char>) -> Option<Seq<char>>;

    /// The value of the setting `key`, which must exist.
    fn get_value(&self, key: &str) -> (r: &String)
        requires
            self.value_of(key@) is Some,
        ensures
            Some(r@) == self.value_of(key@),
    ;
}

/// The settings: (key, environment variable, whether it must be set).
/// An optional variable that is not set gives the empty string.
pub open spec fn settings() -> Seq<(Seq<char>, Seq<char>, bool)> {
    seq![
        ("api_endpoint"@, "API_ENDPOINT"@, true),
        ("faucet_endpoint"@, "FAUCET_ENDPOINT"@, true),
        ("stronghold_password"@, "STRONGHOLD_PASSWORD"@, true),
        ("stronghold_path"@, "STRONGHOLD_VAULT_PATH"@, true),
        ("sqlite_path"@, "SQLITE_PATH"@, false),
        ("network_address"@, "NETWORK_ADDRESS"@, true),
        ("credentials_template_directory"@, "CREDENTIALS_TEMPLATE_DIRECTORY"@, true),
        ("credentials_sd_directory"@, "CREDENTIALS_SD_DIRECTORY"@, true),
    ]
}

/// Rows shown per page in the credential and DID tables.
pub const TABLE_PAGE_SIZE: usize = 10;

/// The first value bound to `name` in `pairs`.
pub open spec fn lookup(pairs: Seq<(Seq<char>, Seq<char>)>, name: Seq<char>) -> Option<Seq<char>>
    decreases pairs.len(),
{
    if pairs.len() == 0 {
        None
    } else if pairs[0].0 == name {
        Some(pairs[0].1)
    } else {
        lookup(pairs.drop_first(), name)
    }
}

/// The (key, value) entries of the first `n` settings read from `env`, or
/// the first required variable that is not set.
pub open spec fn load_settings(env: Seq<(Seq<char>, Seq<char>)>, n: nat) -> Result<
    Seq<(Seq<char>, Seq<char>)>,
    Seq<char>,
>
    decreases n,
{
    if n == 0 {
        Ok(Seq::empty())
    } else {
        match load_settings(env, (n - 1) as nat) {
            Err(v) => Err(v),
            Ok(entries) => {
                let (key, var, required) = settings()[n - 1];
                match lookup(env, var) {
                    Some(value) => Ok(entries.push((key, value))),
                    None => if required {
                        Err(var)
                    } else {
                        Ok(entries.push((key, Seq::empty())))
                    },
                }
            },
        }
    }
}

proof fn lemma_missing_persists(env: Seq<(Seq<char>, Seq<char>)>, k: nat, n: nat)
    requires
        k <= n,
        load_settings(env, k) is Err,
    ensures
        load_settings(env, n) == load_settings(env, k),
    decreases n - k,
{
    if k < n {
        lemma_missing_persists(env, k, (n - 1) as nat);
    }
}

pub open spec fn pairs_view(p: Seq<(String, String)>) -> Seq<(Seq<char>, Seq<char>)> {
    p.map_values(|e: (String, String)| (e.0@, e.1@))
}

/// A required environment variable that is not set.
#[derive(Debug)]
pub struct MissingVariable {
    pub name: String,
}

/// The application's settings.
pub struct VariablesConfig {
    entries: Vec<(String, String)>,
    vc_table_size: usize,
    did_table_size: usize,
}

/// The value bound to `name` in `pairs`, found from the front.
fn find<'a>(pairs: &'a Vec<(String, String)>, name: &str) -> (r: Option<&'a String>)
    ensures
        r is Some <==> lookup(pairs_view(pairs@), name@) is Some,
        r is Some ==> Some(r->Some_0@) == lookup(pairs_view(pairs@), name@),
{
    let ghost all = pairs_view(pairs@);
    let n = pairs.len();
    let mut i: usize = 0;
    assert(all.subrange(0, n as int) =~= all);
    while i < n
        invariant
            n == pairs@.len(),
            all == pairs_view(pairs@),
            i <= n,
            lookup(all, name@) == lookup(all.subrange(i as int, n as int), name@),
        decreases n - i,
    {
        assert(all.subrange(i as int, n as int).drop_first() =~= all.subrange(i + 1, n as int));
        if same_text(pairs[i].0.as_str(), name) {
            return Some(&pairs[i].1);
        }
        i = i + 1;
    }
    None
}

impl VariablesConfig {
    /// The settings as (key, value) pairs.
    pub closed spec fn entries_view(&self) -> Seq<(Seq<char>, Seq<char>)> {
        pairs_view(self.entries@)
    }

    pub closed spec fn spec_vc_table_size(&self) -> usize {
        self.vc_table_size
    }

    pub closed spec fn spec_did_table_size(&self) -> usize {
        self.did_table_size
    }

    /// Reads the settings from the environment's (name, value) pairs.
    /// Fails with the first required variable that is not set.
    pub fn get(env: &Vec<(String, String)>) -> (r: Result<VariablesConfig, MissingVariable>)
        ensures
            load_settings(pairs_view(env@), 8) is Ok <==> r is Ok,
            r is Ok ==> r->Ok_0.entries_view() == load_settings(pairs_view(env@), 8)->Ok_0,
            r is Ok ==> r->Ok_0.spec_vc_table_size() == TABLE_PAGE_SIZE,
            r is Ok ==> r->Ok_0.spec_did_table_size() == TABLE_PAGE_SIZE,
            r is Err ==> r->Err_0.name@ == load_settings(pairs_view(env@), 8)->Err_0,
    {
        let mut table: Vec<(&str, &str, bool)> = Vec::new();
        table.push(("api_endpoint", "API_ENDPOINT", true));
        table.push(("faucet_endpoint", "FAUCET_ENDPOINT", true));
        table.push(("stronghold_password", "STRONGHOLD_PASSWORD", true));
        table.push(("stronghold_path", "STRONGHOLD_VAULT_PATH", true));
        table.push(("sqlite_path", "SQLITE_PATH", false));
        table.push(("network_address", "NETWORK_ADDRESS", true));
        table.push(("credentials_template_directory", "CREDENTIALS_TEMPLATE_DIRECTORY", true));
        table.push(("credentials_sd_directory", "CREDENTIALS_SD_DIRECTORY", true));
        assert(table@.map_values(|t: (&str, &str, bool)| (t.0@, t.1@, t.2)) =~= settings());
        let mut entries: Vec<(String, String)> = Vec::new();
        let mut i: usize = 0;
        assert(pairs_view(entries@) =~= Seq::empty());
        while i < 8
            invariant
                i <= 8,
                table@.len() == 8,
                table@.map_values(|t: (&str, &str, bool)| (t.0@, t.1@, t.2)) == settings(),
                load_settings(pairs_view(env@), i as nat) == Ok::<
                    Seq<(Seq<char>, Seq<char>)>,
                    Seq<char>,
                >(pairs_view(entries@)),
            decreases 8 - i,
        {
            let (key, var, required) = table[i];
            assert(settings()[i as int] == (key@, var@, required));
            match find(env, var) {
                Some(value) => {
                    entries.push((String::from_str(key), value.clone()));
                },
                None => {
                    if required {
                        proof {
                            lemma_missing_persists(pairs_view(env@), (i + 1) as nat, 8);
                        }
                        return Err(MissingVariable { name: String::from_str(var) });
                    }
                    entries.push((String::from_str(key), String::new()));
                },
            }
            assert(pairs_view(entries@) =~= load_settings(pairs_view(env@), (i + 1) as nat)->Ok_0);
            i = i + 1;
        }
        Ok(VariablesConfig { entries, vc_table_size: TABLE_PAGE_SIZE, did_table_size: TABLE_PAGE_SIZE })
    }

    /// Rows per page in the credential table.
    pub fn vc_table_size(&self) -> (r: usize)
        ensures
            r == self.spec_vc_table_size(),
    {
        self.vc_table_size
    }

    /// Rows per page in the DID table.
    pub fn did_table_size(&self) -> (r: usize)
        ensures
            r == self.spec_did_table_size(),
    {
        self.did_table_size
    }

    /// The value of the setting `key`, if there is one.
    pub fn value(&self, key: &str) -> (r: Option<&String>)
        ensures
            r is Some <==> lookup(self.entries_view(), key@) is Some,
            r is Some ==> Some(r->Some_0@) == lookup(self.entries_view(), key@),
    {
        find(&self.entries, key)
    }
}

impl Config for VariablesConfig {
    open spec fn value_of(&self, key: Seq<char>) -> Option<Seq<char>> {
        lookup(self.entries_view(), key)
    }

    fn get_value(&self, key: &str) -> (r: &String) {
        match self.value(key) {
            Some(v) => v,
            None => {
                assert(false);
                &self.entries[0].1
            },
        }
    }
}

} // verus!
