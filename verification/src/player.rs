//! The player record, its fields, and how one cell is stored into it.

use vstd::prelude::*;
use vstd::string::*;
use crate::coerce::{
    count_of, duration_of, is_numeral, numeral_of, parse_count, parse_distance, parse_duration,
    trim_text, trimmed, DecodeError, Distance,
};
use crate::text::{chars_of, is_digit, spells};

verus! {

/// One player, as decoded from one data row of the table.
#[derive(Debug, PartialEq, Eq)]
pub struct Player {
    /// Name under which the player is listed.
    pub username: String,
    /// Enemies killed.
    pub kills: i128,
    /// Times the player died.
    pub deaths: i128,
    /// Score.
    pub score: i128,
    /// Time played, in minutes.
    pub time_played: i128,
    /// Length of the longest kill streak.
    pub longest_kill_streak: i128,
    /// Targets destroyed.
    pub targets_destroyed: i128,
    /// Soldiers healed.
    pub soldiers_healed: i128,
    /// Friendly soldiers killed.
    pub teamkills: i128,
    /// Distance moved, in kilometres.
    pub distance_moved: Distance,
    /// Shots fired.
    pub shots_fired: i128,
    /// Items thrown.
    pub throwables_thrown: i128,
    /// Progression points towards the next rank.
    pub rank_progression: i128,
    /// Name of the rank.
    pub rank_name: String,
}

/// What a [`Player`] holds, as mathematical values.
pub struct PlayerView {
    pub username: Seq<char>,
    pub kills: int,
    pub deaths: int,
    pub score: int,
    pub time_played: int,
    pub longest_kill_streak: int,
    pub targets_destroyed: int,
    pub soldiers_healed: int,
    pub teamkills: int,
    pub distance_moved: Seq<char>,
    pub shots_fired: int,
    pub throwables_thrown: int,
    pub rank_progression: int,
    pub rank_name: Seq<char>,
}

impl PlayerView {
    /// Whether the values are those of a record: no counter is negative, and the distance is
    /// a plain decimal numeral.
    pub open spec fn well_formed(self) -> bool {
        &&& 0 <= self.kills
        &&& 0 <= self.deaths
        &&& 0 <= self.score
        &&& 0 <= self.time_played
        &&& 0 <= self.longest_kill_streak
        &&& 0 <= self.targets_destroyed
        &&& 0 <= self.soldiers_healed
        &&& 0 <= self.teamkills
        &&& 0 <= self.shots_fired
        &&& 0 <= self.throwables_thrown
        &&& 0 <= self.rank_progression
        &&& is_numeral(self.distance_moved)
    }
}

impl View for Player {
    type V = PlayerView;

    open spec fn view(&self) -> PlayerView {
        PlayerView {
            username: self.username@,
            kills: self.kills as int,
            deaths: self.deaths as int,
            score: self.score as int,
            time_played: self.time_played as int,
            longest_kill_streak: self.longest_kill_streak as int,
            targets_destroyed: self.targets_destroyed as int,
            soldiers_healed: self.soldiers_healed as int,
            teamkills: self.teamkills as int,
            distance_moved: self.distance_moved@,
            shots_fired: self.shots_fired as int,
            throwables_thrown: self.throwables_thrown as int,
            rank_progression: self.rank_progression as int,
            rank_name: self.rank_name@,
        }
    }
}

/// The player of a row without cells: every counter zero, every text empty.
pub open spec fn blank_player() -> PlayerView {
    PlayerView {
        username: Seq::empty(),
        kills: 0,
        deaths: 0,
        score: 0,
        time_played: 0,
        longest_kill_streak: 0,
        targets_destroyed: 0,
        soldiers_healed: 0,
        teamkills: 0,
        distance_moved: "0"@,
        shots_fired: 0,
        throwables_thrown: 0,
        rank_progression: 0,
        rank_name: Seq::empty(),
    }
}

/// The blank player is a record.
pub proof fn lemma_blank_player_is_well_formed()
    ensures
        blank_player().well_formed(),
{
    reveal_strlit("0");
    assert(is_digit("0"@[0]));
}

/// Storing a cell into a record gives a record.
pub proof fn lemma_with_cell_keeps_well_formed(player: PlayerView, field: Field, text: Seq<char>)
    requires
        player.well_formed(),
    ensures
        with_cell(player, field, text) matches Ok(filled) ==> filled.well_formed(),
{
}

impl Default for Player {
    fn default() -> (player: Player)
        ensures
            player@ == blank_player(),
            player@.well_formed(),
    {
        proof {
            lemma_blank_player_is_well_formed();
        }
        Player {
            username: String::new(),
            kills: 0,
            deaths: 0,
            score: 0,
            time_played: 0,
            longest_kill_streak: 0,
            targets_destroyed: 0,
            soldiers_healed: 0,
            teamkills: 0,
            distance_moved: Distance::zero(),
            shots_fired: 0,
            throwables_thrown: 0,
            rank_progression: 0,
            rank_name: String::new(),
        }
    }
}

impl Clone for Player {
    fn clone(&self) -> (copy: Player)
        ensures
            copy@ == self@,
    {
        Player {
            username: self.username.clone(),
            kills: self.kills,
            deaths: self.deaths,
            score: self.score,
            time_played: self.time_played,
            longest_kill_streak: self.longest_kill_streak,
            targets_destroyed: self.targets_destroyed,
            soldiers_healed: self.soldiers_healed,
            teamkills: self.teamkills,
            distance_moved: self.distance_moved.clone(),
            shots_fired: self.shots_fired,
            throwables_thrown: self.throwables_thrown,
            rank_progression: self.rank_progression,
            rank_name: self.rank_name.clone(),
        }
    }
}

/// The fields of a player that a table column can fill.
#[derive(Clone, Copy, Debug, PartialEq, Eq, Structural)]
pub enum Field {
    Username,
    Kills,
    Deaths,
    Score,
    TimePlayed,
    LongestKillStreak,
    TargetsDestroyed,
    SoldiersHealed,
    Teamkills,
    DistanceMoved,
    ShotsFired,
    ThrowablesThrown,
    RankProgression,
    RankName,
}

/// The field that a column marker names, if it names one.
pub open spec fn field_named(marker: Seq<char>) -> Option<Field> {
    if marker == "username"@ {
        Some(Field::Username)
    } else if marker == "kills"@ {
        Some(Field::Kills)
    } else if marker == "deaths"@ {
        Some(Field::Deaths)
    } else if marker == "score"@ {
        Some(Field::Score)
    } else if marker == "time_played"@ {
        Some(Field::TimePlayed)
    } else if marker == "longest_kill_streak"@ {
        Some(Field::LongestKillStreak)
    } else if marker == "targets_destroyed"@ {
        Some(Field::TargetsDestroyed)
    } else if marker == "soldiers_healed"@ {
        Some(Field::SoldiersHealed)
    } else if marker == "teamkills"@ {
        Some(Field::Teamkills)
    } else if marker == "distance_moved"@ {
        Some(Field::DistanceMoved)
    } else if marker == "shots_fired"@ {
        Some(Field::ShotsFired)
    } else if marker == "throwables_thrown"@ {
        Some(Field::ThrowablesThrown)
    } else if marker == "rank_progression"@ {
        Some(Field::RankProgression)
    } else if marker == "rank_name"@ {
        Some(Field::RankName)
    } else {
        None
    }
}

/// The player `player` after the cell text `text` was stored into `field`, or the error of
/// the coercion that the field asks for.
pub open spec fn with_cell(player: PlayerView, field: Field, text: Seq<char>) -> Result<
    PlayerView,
    DecodeError,
> {
    match field {
        Field::Username => Ok(PlayerView { username: trimmed(text), ..player }),
        Field::Kills => match count_of(text) {
            Some(n) => Ok(PlayerView { kills: n, ..player }),
            None => Err(DecodeError::MalformedCount),
        },
        Field::Deaths => match count_of(text) {
            Some(n) => Ok(PlayerView { deaths: n, ..player }),
            None => Err(DecodeError::MalformedCount),
        },
        Field::Score => match count_of(text) {
            Some(n) => Ok(PlayerView { score: n, ..player }),
            None => Err(DecodeError::MalformedCount),
        },
        Field::TimePlayed => match duration_of(text) {
            Some(n) => Ok(PlayerView { time_played: n, ..player }),
            None => Err(DecodeError::MalformedDuration),
        },
        Field::LongestKillStreak => match count_of(text) {
            Some(n) => Ok(PlayerView { longest_kill_streak: n, ..player }),
            None => Err(DecodeError::MalformedCount),
        },
        Field::TargetsDestroyed => match count_of(text) {
            Some(n) => Ok(PlayerView { targets_destroyed: n, ..player }),
            None => Err(DecodeError::MalformedCount),
        },
        Field::SoldiersHealed => match count_of(text) {
            Some(n) => Ok(PlayerView { soldiers_healed: n, ..player }),
            None => Err(DecodeError::MalformedCount),
        },
        Field::Teamkills => match count_of(text) {
            Some(n) => Ok(PlayerView { teamkills: n, ..player }),
            None => Err(DecodeError::MalformedCount),
        },
        Field::DistanceMoved => match numeral_of(text) {
            Some(numeral) => Ok(PlayerView { distance_moved: numeral, ..player }),
            None => Err(DecodeError::MalformedDistance),
        },
        Field::ShotsFired => match count_of(text) {
            Some(n) => Ok(PlayerView { shots_fired: n, ..player }),
            None => Err(DecodeError::MalformedCount),
        },
        Field::ThrowablesThrown => match count_of(text) {
            Some(n) => Ok(PlayerView { throwables_thrown: n, ..player }),
            None => Err(DecodeError::MalformedCount),
        },
        Field::RankProgression => match count_of(text) {
            Some(n) => Ok(PlayerView { rank_progression: n, ..player }),
            None => Err(DecodeError::MalformedCount),
        },
        Field::RankName => Ok(PlayerView { rank_name: trimmed(text), ..player }),
    }
}

impl Field {
    /// The field that the column marker `marker` names; `None` for a column that fills no
    /// field.
    pub fn from_marker(marker: &str) -> (field: Option<Field>)
        ensures
            field == field_named(marker@),
    {
        let chars: Vec<char> = chars_of(marker);
        if spells(&chars, "username") {
            Some(Field::Username)
        } else if spells(&chars, "kills") {
            Some(Field::Kills)
        } else if spells(&chars, "deaths") {
            Some(Field::Deaths)
        } else if spells(&chars, "score") {
            Some(Field::Score)
        } else if spells(&chars, "time_played") {
            Some(Field::TimePlayed)
        } else if spells(&chars, "longest_kill_streak") {
            Some(Field::LongestKillStreak)
        } else if spells(&chars, "targets_destroyed") {
            Some(Field::TargetsDestroyed)
        } else if spells(&chars, "soldiers_healed") {
            Some(Field::SoldiersHealed)
        } else if spells(&chars, "teamkills") {
            Some(Field::Teamkills)
        } else if spells(&chars, "distance_moved") {
            Some(Field::DistanceMoved)
        } else if spells(&chars, "shots_fired") {
            Some(Field::ShotsFired)
        } else if spells(&chars, "throwables_thrown") {
            Some(Field::ThrowablesThrown)
        } else if spells(&chars, "rank_progression") {
            Some(Field::RankProgression)
        } else if spells(&chars, "rank_name") {
            Some(Field::RankName)
        } else {
            None
        }
    }
}

impl Player {
    /// Stores the cell text `text` into `field`, coerced as the field asks. On a malformed
    /// text the player is left as it was.
    pub fn set_field(&mut self, field: Field, text: &str) -> (stored: Result<(), DecodeError>)
        ensures
            match stored {
                Ok(_) => with_cell(old(self)@, field, text@) == Ok::<PlayerView, DecodeError>(
                    final(self)@,
                ),
                Err(e) => with_cell(old(self)@, field, text@) == Err::<PlayerView, DecodeError>(e)
                    && final(self)@ == old(self)@,
            },
            old(self)@.well_formed() ==> final(self)@.well_formed(),
    {
        proof {
            if self@.well_formed() {
                lemma_with_cell_keeps_well_formed(self@, field, text@);
            }
        }
        match field {
            Field::Username => {
                self.username = trim_text(text);
            },
            Field::Kills => match parse_count(text) {
                Ok(value) => {
                    self.kills = value;
                },
                Err(e) => {
                    return Err(e);
                },
            },
            Field::Deaths => match parse_count(text) {
                Ok(value) => {
                    self.deaths = value;
                },
                Err(e) => {
                    return Err(e);
                },
            },
            Field::Score => match parse_count(text) {
                Ok(value) => {
                    self.score = value;
                },
                Err(e) => {
                    return Err(e);
                },
            },
            Field::TimePlayed => match parse_duration(text) {
                Ok(value) => {
                    self.time_played = value;
                },
                Err(e) => {
                    return Err(e);
                },
            },
            Field::LongestKillStreak => match parse_count(text) {
                Ok(value) => {
                    self.longest_kill_streak = value;
                },
                Err(e) => {
                    return Err(e);
                },
            },
            Field::TargetsDestroyed => match parse_count(text) {
                Ok(value) => {
                    self.targets_destroyed = value;
                },
                Err(e) => {
                    return Err(e);
                },
            },
            Field::SoldiersHealed => match parse_count(text) {
                Ok(value) => {
                    self.soldiers_healed = value;
                },
                Err(e) => {
                    return Err(e);
                },
            },
            Field::Teamkills => match parse_count(text) {
                Ok(value) => {
                    self.teamkills = value;
                },
                Err(e) => {
                    return Err(e);
                },
            },
            Field::DistanceMoved => match parse_distance(text) {
                Ok(value) => {
                    self.distance_moved = value;
                },
                Err(e) => {
                    return Err(e);
                },
            },
            Field::ShotsFired => match parse_count(text) {
                Ok(value) => {
                    self.shots_fired = value;
                },
                Err(e) => {
                    return Err(e);
                },
            },
            Field::ThrowablesThrown => match parse_count(text) {
                Ok(value) => {
                    self.throwables_thrown = value;
                },
                Err(e) => {
                    return Err(e);
                },
            },
            Field::RankProgression => match parse_count(text) {
                Ok(value) => {
                    self.rank_progression = value;
                },
                Err(e) => {
                    return Err(e);
                },
            },
            Field::RankName => {
                self.rank_name = trim_text(text);
            },
        }
        Ok(())
    }
}

} // verus!
