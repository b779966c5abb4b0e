use vstd::prelude::*;

verus! {

/// The answer of the catalog's search endpoint.
#[derive(Clone, Debug)]
pub struct BeatmapSearch {
    pub beatmapsets: Vec<Beatmapset>,
}

/// One catalog record with the files that belong to it.
#[derive(Clone, Debug)]
pub struct Beatmapset {
    pub id: i32,
    pub artist: String,
    pub artist_unicode: String,
    pub title: String,
    pub title_unicode: String,
    pub creator: String,
    pub user_id: i32,
    pub covers: BeatmapCovers,
    pub beatmaps: Vec<Beatmap>,
    /// RFC 3339 text; empty where the catalog sent none.
    pub last_updated: String,
}

/// One file of a record: its id and its version label.
#[derive(Clone, Debug)]
pub struct Beatmap {
    pub id: i32,
    pub version: String,
}

#[derive(Clone, Debug)]
pub struct BeatmapCovers {
    pub cover: String,
    pub cover_2x: String,
    pub card: String,
    pub card_2x: String,
    pub slimcover: String,
    pub slimcover_2x: String,
}

/// The review class of a record.
#[derive(Copy, Clone, Debug, PartialEq, Eq, Structural)]
pub enum RankStatus {
    Graveyard,
    Wip,
    Pending,
    Ranked,
    Approved,
    Qualified,
    Loved,
}

impl RankStatus {
    /// The catalog's number for this class.
    pub open spec fn code_spec(self) -> int {
        match self {
            RankStatus::Graveyard => -2,
            RankStatus::Wip => -1,
            RankStatus::Pending => 0,
            RankStatus::Ranked => 1,
            RankStatus::Approved => 2,
            RankStatus::Qualified => 3,
            RankStatus::Loved => 4,
        }
    }

    /// The word that stands for this class in a search query.
    pub open spec fn query_word_spec(self) -> Seq<char> {
        match self {
            RankStatus::Graveyard => "graveyard"@,
            RankStatus::Wip => "Wip"@,
            RankStatus::Pending => "pending"@,
            RankStatus::Ranked => "ranked"@,
            RankStatus::Approved => "Approved"@,
            RankStatus::Qualified => "qualified"@,
            RankStatus::Loved => "loved"@,
        }
    }

    pub fn code(self) -> (r: i8)
        ensures
            r as int == self.code_spec(),
    {
        match self {
            RankStatus::Graveyard => -2i8,
            RankStatus::Wip => -1i8,
            RankStatus::Pending => 0i8,
            RankStatus::Ranked => 1i8,
            RankStatus::Approved => 2i8,
            RankStatus::Qualified => 3i8,
            RankStatus::Loved => 4i8,
        }
    }

    pub fn query_word(self) -> (r: &'static str)
        ensures
            r@ == self.query_word_spec(),
    {
        match self {
            RankStatus::Graveyard => "graveyard",
            RankStatus::Wip => "Wip",
            RankStatus::Pending => "pending",
            RankStatus::Ranked => "ranked",
            RankStatus::Approved => "Approved",
            RankStatus::Qualified => "qualified",
            RankStatus::Loved => "loved",
        }
    }
}

} // verus!
