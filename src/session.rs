//! The decisions around the remote service: the client's configuration, the
//! record an authorisation yields, which characters a statistics run covers,
//! and the report it ends with.
use vstd::prelude::*;
use crate::stats::{rank_stats, ranked_by, reorders, total_extractions, total_extractions_of, CropStat};
use crate::store::{copy_record, index_of_name, CharacterData, CredentialStore};
use crate::text::is_prefix_of;

verus! {

/// Where the remote service sends the browser after consent.
pub const CALLBACK_URL: &'static str = "http://localhost:5000/esi/callback";

/// The scopes that an authorisation asks for.
pub const SCOPES: &'static str = "esi-characterstats.read.v1 esi-skills.read_skills.v1 esi-skills.read_skillqueue.v1";

/// The user agent the client announces.
pub const USER_AGENT: &'static str = "eve-toons-agent";

/// Everything the remote client is built from.
#[derive(Clone, Debug, PartialEq, Eq)]
pub struct EsiConfig {
    pub client_id: String,
    pub client_secret: String,
    pub callback_url: String,
    pub scopes: String,
    pub user_agent: String,
}

/// A setting that the configuration lacks.
#[derive(Clone, Copy, Debug, PartialEq, Eq)]
pub enum ConfigError {
    MissingClientId,
    MissingClientSecret,
}

impl EsiConfig {
    /// The configuration for the given client id and secret; fails naming
    /// the first of them that is missing.
    pub fn from_values(client_id: Option<String>, client_secret: Option<String>) -> (r: Result<
        EsiConfig,
        ConfigError,
    >)
        ensures
            client_id is None ==> r == Err::<EsiConfig, ConfigError>(ConfigError::MissingClientId),
            client_id is Some && client_secret is None ==> r == Err::<EsiConfig, ConfigError>(
                ConfigError::MissingClientSecret,
            ),
            r matches Ok(c) ==> client_id == Some(c.client_id) && client_secret == Some(c.client_secret)
                && c.callback_url@ == CALLBACK_URL@ && c.scopes@ == SCOPES@ && c.user_agent@
                == USER_AGENT@,
            client_id is Some && client_secret is Some ==> r is Ok,
    {
        let id = match client_id {
            Some(id) => id,
            None => {
                return Err(ConfigError::MissingClientId);
            },
        };
        let secret = match client_secret {
            Some(s) => s,
            None => {
                return Err(ConfigError::MissingClientSecret);
            },
        };
        Ok(
            EsiConfig {
                client_id: id,
                client_secret: secret,
                callback_url: CALLBACK_URL.to_owned(),
                scopes: SCOPES.to_owned(),
                user_agent: USER_AGENT.to_owned(),
            },
        )
    }
}

/// What the remote service says of the character behind an access token.
#[derive(Clone, Debug, PartialEq, Eq)]
pub struct EsiVerifyResponse {
    pub character_id: i32,
    pub character_name: String,
    pub scopes: String,
}

/// The record that a completed authorisation yields.
pub fn authorised_record(verify: &EsiVerifyResponse, refresh_token: String) -> (r: CharacterData)
    ensures
        r.name == verify.character_name,
        r.id == verify.character_id,
        r.refresh_token == refresh_token,
        r.scopes == verify.scopes,
{
    CharacterData {
        name: verify.character_name.clone(),
        id: verify.character_id,
        refresh_token,
        scopes: verify.scopes.clone(),
    }
}

/// Stores the record of a completed authorisation, replacing an earlier
/// record of the same character.
pub fn record_authorisation(store: &mut CredentialStore, verify: &EsiVerifyResponse, refresh_token: String)
    requires
        old(store).wf(),
    ensures
        final(store).wf(),
        index_of_name(old(store).toons@, verify.character_name@) matches Some(k) ==> final(store).toons@
            == old(store).toons@.update(k, final(store).toons@[k]),
        index_of_name(old(store).toons@, verify.character_name@) is None ==> final(store).toons@
            == old(store).toons@.push(final(store).toons@.last()),
        index_of_name(final(store).toons@, verify.character_name@) matches Some(k) && final(store).toons@[k]
            == (CharacterData {
            name: verify.character_name,
            id: verify.character_id,
            refresh_token,
            scopes: verify.scopes,
        }),
{
    let ghost token = refresh_token;
    let record = authorised_record(verify, refresh_token);
    store.insert(record);
    proof {
        let rec = CharacterData {
            name: verify.character_name,
            id: verify.character_id,
            refresh_token: token,
            scopes: verify.scopes,
        };
        assert(record == rec);
        let s = store.toons@;
        let k = match index_of_name(old(store).toons@, verify.character_name@) {
            Some(k) => k,
            None => old(store).toons@.len() as int,
        };
        assert(s[k] == rec);
        assert(s[k].name@ == verify.character_name@);
        let c = choose|j: int| 0 <= j < s.len() && s[j].name@ == verify.character_name@;
        if c != k {
            if c < k {
                assert(s[c].name@ != s[k].name@);
            } else {
                assert(s[k].name@ != s[c].name@);
            }
        }
    }
}

/// A requested character that the store does not hold.
#[derive(Clone, Copy, Debug, PartialEq, Eq)]
pub struct NotFound;

/// The characters a statistics run covers: every stored one, in store
/// order, or the one that `name` finds.
pub fn select_characters(store: &CredentialStore, name: Option<&str>) -> (r: Result<Vec<CharacterData>, NotFound>)
    requires
        store.wf(),
    ensures
        name is None ==> (r matches Ok(v) && v@ == store.toons@),
        name matches Some(n) ==> (r is Err <==> forall|k: int|
            0 <= k < store.toons@.len() ==> !is_prefix_of(n@, #[trigger] store.toons@[k].name@)),
        name matches Some(n) ==> (r matches Ok(v) ==> v@.len() == 1 && exists|k: int|
            0 <= k < store.toons@.len() && store.toons@[k] == v@[0] && (store.toons@[k].name@ == n@
                || (index_of_name(store.toons@, n@) is None && is_prefix_of(n@, store.toons@[k].name@)
                && forall|j: int| 0 <= j < k ==> !is_prefix_of(n@, #[trigger] store.toons@[j].name@)))),
{
    match name {
        Some(n) => match store.find_by_name(n) {
            Some(c) => {
                proof {
                    let k = choose|k: int|
                        0 <= k < store.toons@.len() && store.toons@[k] == *c && (store.toons@[k].name@
                            == n@ || (index_of_name(store.toons@, n@) is None && is_prefix_of(
                            n@,
                            store.toons@[k].name@,
                        ) && forall|j: int|
                            0 <= j < k ==> !is_prefix_of(n@, #[trigger] store.toons@[j].name@)));
                    assert(store.toons@[k].name@.subrange(0, store.toons@[k].name@.len() as int)
                        =~= store.toons@[k].name@);
                    assert(is_prefix_of(n@, store.toons@[k].name@));
                }
                let mut v: Vec<CharacterData> = Vec::new();
                v.push(copy_record(c));
                Ok(v)
            },
            None => Err(NotFound),
        },
        None => {
            let mut v: Vec<CharacterData> = Vec::new();
            let mut i: usize = 0;
            while i < store.toons.len()
                invariant
                    i <= store.toons@.len(),
                    v@ == store.toons@.take(i as int),
                decreases store.toons@.len() - i,
            {
                v.push(copy_record(&store.toons[i]));
                proof {
                    assert(v@ =~= store.toons@.take(i + 1));
                }
                i = i + 1;
            }
            assert(v@ =~= store.toons@);
            Ok(v)
        },
    }
}

/// The end of a statistics run: the statistics ranked by points, and the
/// extractions they yield together.
#[derive(Clone, Debug, PartialEq, Eq)]
pub struct StatsReport {
    pub ranked: Vec<CropStat>,
    pub total_extractions: i128,
}

/// Ranks the statistics that were computed and totals their extractions.
pub fn build_report(stats: &Vec<CropStat>) -> (r: StatsReport)
    ensures
        exists|perm: Seq<int>| reorders(r.ranked@, stats@, perm) && ranked_by(r.ranked@, perm),
        r.total_extractions == total_extractions_of(stats@),
{
    let ranked = rank_stats(stats);
    let total = total_extractions(stats);
    let ghost perm = choose|perm: Seq<int>| reorders(ranked@, stats@, perm) && ranked_by(ranked@, perm);
    let r = StatsReport { ranked, total_extractions: total };
    assert(reorders(r.ranked@, stats@, perm) && ranked_by(r.ranked@, perm));
    r
}

} // verus!
