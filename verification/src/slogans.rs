//! The slogans of the teams, by team name.
use vstd::hash_map::StringHashMap;
use vstd::prelude::*;

verus! {

/// A table from team names to slogans. Names are compared letter by letter.
pub struct TeamSlogans {
    table: StringHashMap<String>,
}

impl View for TeamSlogans {
    type V = Map<Seq<char>, Seq<char>>;

    closed spec fn view(&self) -> Map<Seq<char>, Seq<char>> {
        self.table@.map_values(|slogan: String| slogan@)
    }
}

impl TeamSlogans {
    /// A table without entries.
    pub fn new() -> (slogans: TeamSlogans)
        ensures
            slogans@ == Map::<Seq<char>, Seq<char>>::empty(),
    {
        let slogans = TeamSlogans { table: StringHashMap::new() };
        assert(slogans@ =~= Map::<Seq<char>, Seq<char>>::empty());
        slogans
    }

    /// Sets the slogan of a team, in place of the one it had.
    pub fn insert(&mut self, team_name: String, slogan: String)
        ensures
            final(self)@ == old(self)@.insert(team_name@, slogan@),
    {
        self.table.insert(team_name, slogan);
        assert(self@ =~= old(self)@.insert(team_name@, slogan@));
    }

    /// The slogan of a team, if it has one.
    pub fn get(&self, team_name: &str) -> (slogan: Option<&String>)
        ensures
            match slogan {
                Some(text) => self@.contains_key(team_name@) && self@[team_name@] == text@,
                None => !self@.contains_key(team_name@),
            },
    {
        self.table.get(team_name)
    }
}

} // verus!
