//! Chat commands and the texts they reply with.
//!
//! The transport delivers plain messages beside inline queries; the bot
//! understands three slash commands. Parsing the command word and
//! rendering the reply texts are pure logic and live here; sending the
//! replies is the host's I/O.

use vstd::prelude::*;
use vstd::string::StringExecFns;

use crate::store::{seq_views, CachedSong, CachedSongView, HistorySong, HistorySongView};
use crate::text::{spec_u64_digits, u64_to_dec};

verus! {

/// The chat commands the bot understands.
#[derive(Clone, Copy, Debug, PartialEq, Eq, Structural)]
pub enum Commands {
    /// Show the user's last searches.
    History,
    /// Show the user's currently liked songs.
    Liked,
    /// Show the start message.
    Start,
}

impl Commands {
    /// The command word, as the user types it after the slash.
    pub open spec fn spec_name(self) -> Seq<char> {
        match self {
            Commands::History => "history"@,
            Commands::Liked => "liked"@,
            Commands::Start => "start"@,
        }
    }

    /// The command word as a string.
    pub fn name(&self) -> (r: String)
        ensures
            r@ == self.spec_name(),
    {
        match self {
            Commands::History => "history".to_owned(),
            Commands::Liked => "liked".to_owned(),
            Commands::Start => "start".to_owned(),
        }
    }

    /// Parse a message text as a command: exactly the slash-prefixed
    /// command word; anything else is no command.
    pub fn parse(text: &str) -> (r: Option<Commands>)
        ensures
            r == (if text@ == "/history"@ {
                Some(Commands::History)
            } else if text@ == "/liked"@ {
                Some(Commands::Liked)
            } else if text@ == "/start"@ {
                Some(Commands::Start)
            } else {
                None::<Commands>
            }),
    {
        let t = text.to_owned();
        if t == "/history".to_owned() {
            Some(Commands::History)
        } else if t == "/liked".to_owned() {
            Some(Commands::Liked)
        } else if t == "/start".to_owned() {
            Some(Commands::Start)
        } else {
            None
        }
    }
}

/// The numbered lines of a history listing, `k` the number of the first
/// row: `k) artist - name`, one row per line.
pub open spec fn spec_history_lines(rows: Seq<HistorySongView>, k: int) -> Seq<char>
    decreases rows.len(),
{
    if rows.len() == 0 {
        Seq::empty()
    } else {
        spec_u64_digits(k as u64) + ") "@ + rows.first().song_artist + " - "@
            + rows.first().song_name + "\n"@ + spec_history_lines(rows.drop_first(), k + 1)
    }
}

/// The reply of the history command: a heading, then the listing's rows
/// numbered from one.
pub open spec fn spec_history_message(rows: Seq<HistorySongView>) -> Seq<char> {
    "Your last 10 searches:\n\n"@ + spec_history_lines(rows, 1)
}

/// Render the history command's reply for a history listing.
pub fn history_message(history: &Vec<HistorySong>) -> (r: String)
    ensures
        r@ == spec_history_message(seq_views(history@)),
{
    let ghost rviews = seq_views(history@);
    let ghost full = spec_history_message(rviews);
    let mut s = "Your last 10 searches:\n\n".to_owned();
    let n = history.len();
    let mut i: usize = 0;
    proof {
        assert(rviews.skip(0) =~= rviews);
    }
    while i < n
        invariant
            0 <= i <= n,
            n == history@.len(),
            rviews == seq_views(history@),
            full == s@ + spec_history_lines(rviews.skip(i as int), i + 1),
        decreases n - i,
    {
        proof {
            assert(rviews.skip(i as int).first() == rviews[i as int]);
            assert(rviews.skip(i as int).drop_first() =~= rviews.skip(i as int + 1));
        }
        let num = u64_to_dec((i as u64) + 1);
        s.append(num.as_str());
        s.append(") ");
        s.append(history[i].song_artist.as_str());
        s.append(" - ");
        s.append(history[i].song_name.as_str());
        s.append("\n");
        i += 1;
    }
    proof {
        assert(rviews.skip(n as int) =~= Seq::<HistorySongView>::empty());
        assert(full =~= s@);
    }
    s
}

/// The numbered lines of a likes listing, `k` the number of the first
/// row: `k) artist - name`, one row per line.
pub open spec fn spec_liked_lines(rows: Seq<CachedSongView>, k: int) -> Seq<char>
    decreases rows.len(),
{
    if rows.len() == 0 {
        Seq::empty()
    } else {
        spec_u64_digits(k as u64) + ") "@ + rows.first().song_artist + " - "@
            + rows.first().song_name + "\n"@ + spec_liked_lines(rows.drop_first(), k + 1)
    }
}

/// The reply of the liked command: a heading, then the listing's rows
/// numbered from one.
pub open spec fn spec_liked_message(rows: Seq<CachedSongView>) -> Seq<char> {
    "Here's the list of your latest favorite songs:\n"@ + spec_liked_lines(rows, 1)
}

/// Render the liked command's reply for a likes listing.
pub fn liked_message(likes: &Vec<CachedSong>) -> (r: String)
    ensures
        r@ == spec_liked_message(seq_views(likes@)),
{
    let ghost rviews = seq_views(likes@);
    let ghost full = spec_liked_message(rviews);
    let mut s = "Here's the list of your latest favorite songs:\n".to_owned();
    let n = likes.len();
    let mut i: usize = 0;
    proof {
        assert(rviews.skip(0) =~= rviews);
    }
    while i < n
        invariant
            0 <= i <= n,
            n == likes@.len(),
            rviews == seq_views(likes@),
            full == s@ + spec_liked_lines(rviews.skip(i as int), i + 1),
        decreases n - i,
    {
        proof {
            assert(rviews.skip(i as int).first() == rviews[i as int]);
            assert(rviews.skip(i as int).drop_first() =~= rviews.skip(i as int + 1));
        }
        let num = u64_to_dec((i as u64) + 1);
        s.append(num.as_str());
        s.append(") ");
        s.append(likes[i].song_artist.as_str());
        s.append(" - ");
        s.append(likes[i].song_name.as_str());
        s.append("\n");
        i += 1;
    }
    proof {
        assert(rviews.skip(n as int) =~= Seq::<CachedSongView>::empty());
        assert(full =~= s@);
    }
    s
}

} // verus!
