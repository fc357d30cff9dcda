//! What the client decides about speech before it talks to the speech
//! service or to an audio player.

use vstd::prelude::*;
use vstd::string::*;
use crate::text::{
    contains, has_substring, trim, trim_end_matches, trimmed, without_suffixes,
};

verus! {

/// A program that plays audio from its standard input.
#[derive(Debug, Clone, Copy, PartialEq, Eq, Structural)]
pub enum Player {
    Mpv,
    Ffplay,
    Aplay,
}

/// The player that is used, given which players are installed and the
/// content type of the audio: `mpv` before `ffplay`, and `aplay` last and
/// only for WAV audio.
pub open spec fn chosen_player(mpv: bool, ffplay: bool, aplay: bool, content_type: Seq<char>)
    -> Option<Player> {
    if mpv {
        Some(Player::Mpv)
    } else if ffplay {
        Some(Player::Ffplay)
    } else if aplay && has_substring(content_type, "wav"@) {
        Some(Player::Aplay)
    } else {
        None
    }
}

/// The text that is spoken for `text`: the text without surrounding white
/// space, and nothing where that is empty.
pub open spec fn spoken(text: Seq<char>) -> Option<Seq<char>> {
    if trimmed(text).len() == 0 {
        None
    } else {
        Some(trimmed(text))
    }
}

/// The address to which voices are uploaded, given the address of the
/// speech endpoint: `/voice` in place of a trailing `/speech`.
pub open spec fn voice_endpoint(url: Seq<char>) -> Seq<char> {
    without_suffixes(without_suffixes(url, "/speech"@), "/"@) + "/voice"@
}

/// Picks the player.
pub fn choose_player(mpv: bool, ffplay: bool, aplay: bool, content_type: &str) -> (player: Option<
    Player,
>)
    ensures
        player == chosen_player(mpv, ffplay, aplay, content_type@),
{
    if mpv {
        Some(Player::Mpv)
    } else if ffplay {
        Some(Player::Ffplay)
    } else if aplay && contains(content_type, "wav") {
        Some(Player::Aplay)
    } else {
        None
    }
}

/// The text to speak, if there is any.
pub fn speech_text(text: &str) -> (speech: Option<String>)
    ensures
        match speech {
            Some(speech) => spoken(text@) == Some(speech@),
            None => spoken(text@) is None,
        },
{
    let text = trim(text);
    if text.is_empty() {
        None
    } else {
        Some(String::from_str(text))
    }
}

/// The address to which voices are uploaded.
pub fn voice_url(url: &str) -> (endpoint: String)
    ensures
        endpoint@ == voice_endpoint(url@),
{
    proof {
        reveal_strlit("/speech");
        reveal_strlit("/");
    }
    let base = trim_end_matches(trim_end_matches(url, "/speech"), "/");
    let mut endpoint = String::from_str(base);
    endpoint.append("/voice");
    endpoint
}

/// The arguments with which a player reads audio from its standard input
/// and plays it without a window and without chatter.
pub open spec fn player_arguments(player: Player) -> Seq<Seq<char>> {
    match player {
        Player::Mpv => seq!["-"@, "--no-cache"@, "--no-terminal"@, "--audio-buffer=0.1"@],
        Player::Ffplay => seq![
            "-i"@,
            "pipe:0"@,
            "-autoexit"@,
            "-nodisp"@,
            "-hide_banner"@,
            "-loglevel"@,
            "quiet"@,
        ],
        Player::Aplay => Seq::empty(),
    }
}

/// The characters of each string slice of a list.
pub open spec fn slices_of(list: Seq<&'static str>) -> Seq<Seq<char>> {
    Seq::new(list.len(), |i: int| list[i]@)
}

impl Player {
    /// The arguments the program is started with.
    pub fn arguments(&self) -> (list: Vec<&'static str>)
        ensures
            slices_of(list@) == player_arguments(*self),
    {
        let mut list: Vec<&'static str> = Vec::new();
        match self {
            Player::Mpv => {
                list.push("-");
                list.push("--no-cache");
                list.push("--no-terminal");
                list.push("--audio-buffer=0.1");
            },
            Player::Ffplay => {
                list.push("-i");
                list.push("pipe:0");
                list.push("-autoexit");
                list.push("-nodisp");
                list.push("-hide_banner");
                list.push("-loglevel");
                list.push("quiet");
            },
            Player::Aplay => {},
        }
        assert(slices_of(list@) =~= player_arguments(*self));
        list
    }

    /// The name of the program.
    pub fn program(&self) -> (name: &'static str)
        ensures
            name@ == match self {
                Player::Mpv => "mpv"@,
                Player::Ffplay => "ffplay"@,
                Player::Aplay => "aplay"@,
            },
    {
        match self {
            Player::Mpv => "mpv",
            Player::Ffplay => "ffplay",
            Player::Aplay => "aplay",
        }
    }
}

} // verus!
