use vstd::prelude::*;

use crate::text::str_eq;

verus! {

/// Polymarket ping interval (seconds): keeps the price feed connection alive.
pub const POLY_PING_INTERVAL_SECS: u64 = 30;

/// Reconnect delay of the price feed (seconds).
pub const WS_RECONNECT_DELAY_SECS: u64 = 5;

/// Detection threshold in cents: an arb is signalled when the combined cost
/// of both sides is strictly below it (0.995 dollars, rounded to cents).
pub const ARB_THRESHOLD_CENTS: u16 = 100;

/// One league that discovery can crawl: its own code and the slug prefix
/// that its markets carry on Polymarket.
pub struct LeagueConfig {
    pub league_code: &'static str,
    pub poly_prefix: &'static str,
}

impl LeagueConfig {
    pub open spec fn view(&self) -> (Seq<char>, Seq<char>) {
        (self.league_code@, self.poly_prefix@)
    }

    /// Whether `key` names this league, by its code or by its prefix.
    pub open spec fn named_by(&self, key: Seq<char>) -> bool {
        self.league_code@ == key || self.poly_prefix@ == key
    }
}

impl Clone for LeagueConfig {
    fn clone(&self) -> (r: Self)
        ensures
            r == *self,
    {
        LeagueConfig { league_code: self.league_code, poly_prefix: self.poly_prefix }
    }
}

/// The supported leagues, in the order in which discovery visits them.
pub open spec fn league_table() -> Seq<(Seq<char>, Seq<char>)> {
    seq![
        ("epl"@, "epl"@),
        ("bundesliga"@, "bun"@),
        ("laliga"@, "lal"@),
        ("seriea"@, "sea"@),
        ("ligue1"@, "fl1"@),
        ("ucl"@, "ucl"@),
        ("uel"@, "uel"@),
        ("eflc"@, "elc"@),
        ("nba"@, "nba"@),
        ("nfl"@, "nfl"@),
        ("nhl"@, "nhl"@),
        ("mlb"@, "mlb"@),
        ("mls"@, "mls"@),
        ("ncaaf"@, "cfb"@),
    ]
}

/// The first entry of `t` from index `i` on that `key` names.
pub open spec fn find_league_from(
    t: Seq<(Seq<char>, Seq<char>)>,
    key: Seq<char>,
    i: int,
) -> Option<(Seq<char>, Seq<char>)>
    decreases t.len() - i,
{
    if i < 0 || i >= t.len() {
        None
    } else if t[i].0 == key || t[i].1 == key {
        Some(t[i])
    } else {
        find_league_from(t, key, i + 1)
    }
}

/// All supported leagues with their configurations.
pub fn get_league_configs() -> (r: Vec<LeagueConfig>)
    ensures
        r@.len() == league_table().len(),
        forall|i: int| 0 <= i < r@.len() ==> #[trigger] r@[i].view() == league_table()[i],
{
    let r = vec![
        LeagueConfig { league_code: "epl", poly_prefix: "epl" },
        LeagueConfig { league_code: "bundesliga", poly_prefix: "bun" },
        LeagueConfig { league_code: "laliga", poly_prefix: "lal" },
        LeagueConfig { league_code: "seriea", poly_prefix: "sea" },
        LeagueConfig { league_code: "ligue1", poly_prefix: "fl1" },
        LeagueConfig { league_code: "ucl", poly_prefix: "ucl" },
        LeagueConfig { league_code: "uel", poly_prefix: "uel" },
        LeagueConfig { league_code: "eflc", poly_prefix: "elc" },
        LeagueConfig { league_code: "nba", poly_prefix: "nba" },
        LeagueConfig { league_code: "nfl", poly_prefix: "nfl" },
        LeagueConfig { league_code: "nhl", poly_prefix: "nhl" },
        LeagueConfig { league_code: "mlb", poly_prefix: "mlb" },
        LeagueConfig { league_code: "mls", poly_prefix: "mls" },
        LeagueConfig { league_code: "ncaaf", poly_prefix: "cfb" },
    ];
    r
}

/// The configuration of the league that `league` names, by code or by prefix;
/// the first in table order where both could match.
pub fn get_league_config(league: &str) -> (r: Option<LeagueConfig>)
    ensures
        r matches Some(c) ==> find_league_from(league_table(), league@, 0) == Some(c.view()),
        r is None ==> find_league_from(league_table(), league@, 0) is None,
{
    let configs = get_league_configs();
    let mut i: usize = 0;
    while i < configs.len()
        invariant
            0 <= i <= configs@.len(),
            configs@.len() == league_table().len(),
            forall|j: int| 0 <= j < configs@.len() ==> #[trigger] configs@[j].view() == league_table()[j],
            find_league_from(league_table(), league@, 0) == find_league_from(league_table(), league@, i as int),
        decreases configs@.len() - i,
    {
        let c = &configs[i];
        let hit = str_eq(c.league_code, league) || str_eq(c.poly_prefix, league);
        proof {
            assert(configs@[i as int].view() == league_table()[i as int]);
        }
        if hit {
            return Some(c.clone());
        }
        proof {
            assert(configs@[i as int].view() == league_table()[i as int]);
        }
        i = i + 1;
    }
    None
}

} // verus!
