//! The presentation formatter: the derived title, status suffix, track
//! label, duration/position label, and the composed notification message.

use vstd::prelude::*;
use vstd::string::StringExecFns;
use crate::digits::{dec_of, render_dec};
use crate::metadata::{Metadata, MetaSpec};
use crate::text::str_eq;
use crate::timefmt::{time_str, format_time};

verus! {

/// The fixed title shown when the artist or title tag is missing.
pub open spec fn fallback_title() -> Seq<char> {
    "C* Music Player"@
}

/// `"<artist> - <title>"` when both tags are present, the fixed
/// application name otherwise.
pub open spec fn title_str(m: MetaSpec) -> Seq<char> {
    if m.artist.len() > 0 && m.title.len() > 0 {
        m.artist + " - "@ + m.title
    } else {
        fallback_title()
    }
}

/// The suffix that trails the album in the message: `" [Paused]"` or
/// `" [Stopped]"` for those two states, nothing for `playing` or any
/// other state.
pub open spec fn status_suffix(status: Seq<char>) -> Seq<char> {
    if status == "paused"@ {
        " [Paused]"@
    } else if status == "stopped"@ {
        " [Stopped]"@
    } else {
        Seq::empty()
    }
}

/// The track line: nothing at all for track number zero, otherwise the
/// track number, preceded by the disc number when one is known.
pub open spec fn track_label(tracknumber: u8, discnumber: u8) -> Seq<char> {
    if tracknumber == 0 {
        Seq::empty()
    } else if discnumber > 0 {
        "disc "@ + dec_of(discnumber as int) + ", track "@ + dec_of(tracknumber as int)
    } else {
        "track "@ + dec_of(tracknumber as int)
    }
}

/// The duration segment: absent when the duration is unknown, the
/// position over the duration when playback has started, the duration
/// alone otherwise.
pub open spec fn duration_label(duration: u32, position: u32) -> Option<Seq<char>> {
    if duration == 0 {
        None
    } else if position > 0 {
        Some(time_str(position as int) + " / "@ + time_str(duration as int))
    } else {
        Some(time_str(duration as int))
    }
}

/// The whole message body: album and status suffix joined without a
/// separator, a newline, the track label, and the duration segment after
/// a comma when there is one.
pub open spec fn message_str(m: MetaSpec) -> Seq<char> {
    m.album + status_suffix(m.status) + "\n"@ + track_label(m.tracknumber, m.discnumber) + match
        duration_label(m.duration, m.position) {
        None => Seq::<char>::empty(),
        Some(l) => ", "@ + l,
    }
}

impl Metadata {
    /// The notification title. Both the artist and the title tag must be
    /// present for them to be shown; anything less falls back to the
    /// fixed application name.
    pub fn get_title(&self) -> (r: String)
        ensures
            r@ == title_str(self@),
            self.artist@.len() == 0 || self.title@.len() == 0 ==> r@ == fallback_title(),
            self.artist@.len() > 0 && self.title@.len() > 0 ==> r@ == self.artist@ + " - "@
                + self.title@,
    {
        if !self.artist.as_str().is_empty() && !self.title.as_str().is_empty() {
            let r = self.artist.clone().concat(" - ").concat(self.title.as_str());
            proof {
                assert(r@ =~= title_str(self@));
            }
            r
        } else {
            String::from_str("C* Music Player")
        }
    }

    /// The status suffix of the message.
    pub fn get_status(&self) -> (r: String)
        ensures
            r@ == status_suffix(self.status@),
    {
        if str_eq(self.status.as_str(), "paused") {
            String::from_str(" [Paused]")
        } else if str_eq(self.status.as_str(), "stopped") {
            String::from_str(" [Stopped]")
        } else {
            String::new()
        }
    }

    /// The track label. It is empty exactly when the track number is
    /// zero: a disc number alone labels nothing.
    pub fn get_track(&self) -> (r: String)
        ensures
            r@ == track_label(self.tracknumber, self.discnumber),
            r@.len() == 0 <==> self.tracknumber == 0,
    {
        if self.tracknumber > 0 {
            proof {
                reveal_strlit("disc ");
                reveal_strlit(", track ");
                reveal_strlit("track ");
            }
            if self.discnumber > 0 {
                let r = String::from_str("disc ").concat(
                    render_dec(self.discnumber as u32).as_str(),
                ).concat(", track ").concat(render_dec(self.tracknumber as u32).as_str());
                proof {
                    assert(r@ =~= track_label(self.tracknumber, self.discnumber));
                }
                r
            } else {
                let r = String::from_str("track ").concat(
                    render_dec(self.tracknumber as u32).as_str(),
                );
                proof {
                    assert(r@ =~= track_label(self.tracknumber, self.discnumber));
                }
                r
            }
        } else {
            String::new()
        }
    }

    /// The duration segment of the message, when there is one.
    pub fn get_duration(&self) -> (r: Option<String>)
        ensures
            match duration_label(self.duration, self.position) {
                None => r is None,
                Some(l) => r matches Some(s) && s@ == l,
            },
    {
        if self.duration == 0 {
            None
        } else if self.position > 0 {
            let r = format_time(self.position).concat(" / ").concat(
                format_time(self.duration).as_str(),
            );
            proof {
                assert(r@ =~= time_str(self.position as int) + " / "@ + time_str(
                    self.duration as int,
                ));
            }
            Some(r)
        } else {
            Some(format_time(self.duration))
        }
    }

    /// The composed message body.
    pub fn get_message(&self) -> (r: String)
        ensures
            r@ == message_str(self@),
    {
        let mut body = self.album.clone();
        let suffix = self.get_status();
        body.append(suffix.as_str());
        body.append("\n");
        let track = self.get_track();
        body.append(track.as_str());
        match self.get_duration() {
            Some(d) => {
                body.append(", ");
                body.append(d.as_str());
            },
            None => {},
        }
        proof {
            assert(body@ =~= message_str(self@));
        }
        body
    }
}

} // verus!
