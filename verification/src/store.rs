//! The statements that prepare the destination table and write one player into it.

use vstd::prelude::*;
use vstd::string::*;
use crate::player::{Player, PlayerView};
use crate::text::{chars_of, decimal_text, render_int};

verus! {

/// File name of the destination database.
pub const DB_NAME: &'static str = "rwr_players.db";

/// Name of the destination table.
pub const TABLE_NAME: &'static str = "rwr_players";

/// The statement that removes the table `table_name` if it exists. The name is copied as it
/// is.
pub fn get_drop_table_sql(table_name: &str) -> (sql: String)
    ensures
        sql@ == "DROP TABLE IF EXISTS "@ + table_name@,
{
    let mut sql: String = String::from_str("DROP TABLE IF EXISTS ");
    sql.append(table_name);
    sql
}

/// The statement that creates the table `table_name`: a store-assigned key and one column for
/// each attribute of a player. The name is copied as it is, between double quotes.
pub fn get_create_table_sql(table_name: &str) -> (sql: String)
    ensures
        sql@ == "CREATE TABLE \""@ + table_name@
            + "\" (\n\t\"id\" INTEGER NOT NULL,\n\t\"username\" TEXT NOT NULL,\n\t\"kills\" BIGINT NOT NULL,\n\t\"deaths\" BIGINT NOT NULL,\n\t\"score\" BIGINT NOT NULL,\n\t\"time_played\" BIGINT NOT NULL,\n\t\"longest_kill_streak\" BIGINT NOT NULL,\n\t\"targets_destroyed\" BIGINT NOT NULL,\n\t\"soldiers_healed\" BIGINT NOT NULL,\n\t\"teamkills\" BIGINT NOT NULL,\n\t\"distance_moved\" REAL NOT NULL,\n\t\"shots_fired\" BIGINT NOT NULL,\n\t\"throwables_thrown\" BIGINT NOT NULL,\n\t\"rank_progression\" BIGINT NOT NULL,\n\t\"rank_name\" TEXT NOT NULL,\n\tPRIMARY KEY (\"id\")\n);"@,
{
    let mut sql: String = String::from_str("CREATE TABLE \"");
    sql.append(table_name);
    sql.append(
        "\" (\n\t\"id\" INTEGER NOT NULL,\n\t\"username\" TEXT NOT NULL,\n\t\"kills\" BIGINT NOT NULL,\n\t\"deaths\" BIGINT NOT NULL,\n\t\"score\" BIGINT NOT NULL,\n\t\"time_played\" BIGINT NOT NULL,\n\t\"longest_kill_streak\" BIGINT NOT NULL,\n\t\"targets_destroyed\" BIGINT NOT NULL,\n\t\"soldiers_healed\" BIGINT NOT NULL,\n\t\"teamkills\" BIGINT NOT NULL,\n\t\"distance_moved\" REAL NOT NULL,\n\t\"shots_fired\" BIGINT NOT NULL,\n\t\"throwables_thrown\" BIGINT NOT NULL,\n\t\"rank_progression\" BIGINT NOT NULL,\n\t\"rank_name\" TEXT NOT NULL,\n\tPRIMARY KEY (\"id\")\n);",
    );
    sql
}

/// What stands for the character `c` inside a text literal: a single quote is doubled, every
/// other character stands for itself.
pub open spec fn quoted_char(c: char) -> Seq<char> {
    if c == '\'' {
        seq!['\'', '\'']
    } else {
        seq![c]
    }
}

/// `text` as it stands inside a text literal: every single quote doubled.
pub open spec fn quoted(text: Seq<char>) -> Seq<char>
    decreases text.len(),
{
    if text.len() == 0 {
        Seq::empty()
    } else {
        quoted_char(text.first()) + quoted(text.drop_first())
    }
}

/// The text that the body of a text literal stands for: a pair of single quotes is one single
/// quote, every other character is itself. A single quote without its pair would end the
/// literal: such a body stands for no text.
pub open spec fn literal_value(body: Seq<char>) -> Option<Seq<char>>
    decreases body.len(),
{
    if body.len() == 0 {
        Some(Seq::empty())
    } else if body.first() != '\'' {
        match literal_value(body.drop_first()) {
            Some(rest) => Some(seq![body.first()] + rest),
            None => None,
        }
    } else if body.len() >= 2 && body[1] == '\'' {
        match literal_value(body.skip(2)) {
            Some(rest) => Some(seq!['\''] + rest),
            None => None,
        }
    } else {
        None
    }
}

/// A text inside a text literal is read back as itself, whatever it holds: no character of it
/// ends the literal, so nothing of it is read as part of the statement.
pub proof fn lemma_quoted_reads_back(text: Seq<char>)
    ensures
        literal_value(quoted(text)) == Some(text),
    decreases text.len(),
{
    if text.len() > 0 {
        let rest = text.drop_first();
        let body = quoted(text);
        lemma_quoted_reads_back(rest);
        if text.first() == '\'' {
            assert(body.skip(2) =~= quoted(rest));
        } else {
            assert(body.drop_first() =~= quoted(rest));
        }
        assert(seq![text.first()] + rest =~= text);
    }
}

/// Quoting goes character by character.
proof fn lemma_quoted_push(text: Seq<char>, c: char)
    ensures
        quoted(text.push(c)) == quoted(text) + quoted_char(c),
    decreases text.len(),
{
    let longer = text.push(c);
    if text.len() == 0 {
        assert(longer.drop_first() =~= Seq::<char>::empty());
        assert(quoted(longer.drop_first()) =~= Seq::<char>::empty());
        assert(quoted(longer) =~= quoted_char(c) + Seq::<char>::empty());
        assert(quoted(text) + quoted_char(c) =~= quoted_char(c) + Seq::<char>::empty());
    } else {
        lemma_quoted_push(text.drop_first(), c);
        assert(longer.drop_first() =~= text.drop_first().push(c));
        assert(quoted(longer) =~= quoted(text) + quoted_char(c));
    }
}

/// Appends `text` to `out` as it stands inside a text literal.
fn push_quoted(text: &str, out: &mut String)
    ensures
        final(out)@ == old(out)@ + quoted(text@),
{
    let chars: Vec<char> = chars_of(text);
    let mut start: usize = 0;
    proof {
        reveal_strlit("''");
        assert("''"@ =~= seq!['\'', '\'']);
        assert(text@.take(0) =~= Seq::<char>::empty());
        assert(out@ + text@.subrange(0, 0) =~= old(out)@ + quoted(text@.take(0)));
    }
    for i in 0..chars.len()
        invariant
            chars@ == text@,
            start <= i,
            "''"@ == seq!['\'', '\''],
            out@ + text@.subrange(start as int, i as int) == old(out)@ + quoted(
                text@.take(i as int),
            ),
    {
        proof {
            lemma_quoted_push(text@.take(i as int), text@[i as int]);
            assert(text@.take(i as int).push(text@[i as int]) =~= text@.take(i + 1));
        }
        if chars[i] == '\'' {
            let ghost before = out@;
            let ghost from = start as int;
            out.append(text.substring_char(start, i));
            out.append("''");
            start = i + 1;
            proof {
                assert(text@.subrange(i + 1, i + 1) =~= Seq::<char>::empty());
                assert(out@ + text@.subrange(start as int, i + 1) =~= (before + text@.subrange(
                    from,
                    i as int,
                )) + quoted_char(text@[i as int]));
            }
        } else {
            assert(out@ + text@.subrange(start as int, i + 1) =~= (out@ + text@.subrange(
                start as int,
                i as int,
            )).push(text@[i as int]));
        }
    }
    out.append(text.substring_char(start, chars.len()));
    proof {
        assert(text@.take(chars@.len() as int) =~= text@);
    }
}

/// The text of the statement that writes `player` as one row. Texts stand between single
/// quotes, with every single quote of their own doubled; numbers stand in decimal.
pub open spec fn insert_text(player: PlayerView) -> Seq<char> {
    "INSERT INTO rwr_players (username, kills, deaths, score,time_played,longest_kill_streak,targets_destroyed,soldiers_healed,teamkills,distance_moved,shots_fired,throwables_thrown,rank_progression,rank_name)\nVALUES('"@ + quoted(player.username)
        + "',"@ + decimal_text(player.kills)
        + ","@ + decimal_text(player.deaths)
        + ","@ + decimal_text(player.score)
        + ","@ + decimal_text(player.time_played)
        + ","@ + decimal_text(player.longest_kill_streak)
        + ","@ + decimal_text(player.targets_destroyed)
        + ","@ + decimal_text(player.soldiers_healed)
        + ","@ + decimal_text(player.teamkills)
        + ","@ + player.distance_moved
        + ","@ + decimal_text(player.shots_fired)
        + ","@ + decimal_text(player.throwables_thrown)
        + ","@ + decimal_text(player.rank_progression)
        + ",'"@ + quoted(player.rank_name) + "')"@
}

/// The statement that writes `player` as one row of the destination table.
pub fn insert_player_sql(player: &Player) -> (sql: String)
    ensures
        sql@ == insert_text(player@),
{
    let mut sql: String = String::from_str(
        "INSERT INTO rwr_players (username, kills, deaths, score,time_played,longest_kill_streak,targets_destroyed,soldiers_healed,teamkills,distance_moved,shots_fired,throwables_thrown,rank_progression,rank_name)\nVALUES('",
    );
    push_quoted(player.username.as_str(), &mut sql);
    sql.append("',");
    let kills: String = render_int(player.kills);
    sql.append(kills.as_str());
    sql.append(",");
    let deaths: String = render_int(player.deaths);
    sql.append(deaths.as_str());
    sql.append(",");
    let score: String = render_int(player.score);
    sql.append(score.as_str());
    sql.append(",");
    let time_played: String = render_int(player.time_played);
    sql.append(time_played.as_str());
    sql.append(",");
    let longest_kill_streak: String = render_int(player.longest_kill_streak);
    sql.append(longest_kill_streak.as_str());
    sql.append(",");
    let targets_destroyed: String = render_int(player.targets_destroyed);
    sql.append(targets_destroyed.as_str());
    sql.append(",");
    let soldiers_healed: String = render_int(player.soldiers_healed);
    sql.append(soldiers_healed.as_str());
    sql.append(",");
    let teamkills: String = render_int(player.teamkills);
    sql.append(teamkills.as_str());
    sql.append(",");
    sql.append(player.distance_moved.numeral());
    sql.append(",");
    let shots_fired: String = render_int(player.shots_fired);
    sql.append(shots_fired.as_str());
    sql.append(",");
    let throwables_thrown: String = render_int(player.throwables_thrown);
    sql.append(throwables_thrown.as_str());
    sql.append(",");
    let rank_progression: String = render_int(player.rank_progression);
    sql.append(rank_progression.as_str());
    sql.append(",'");
    push_quoted(player.rank_name.as_str(), &mut sql);
    sql.append("')");
    sql
}

} // verus!
