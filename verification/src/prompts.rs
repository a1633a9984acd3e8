//! What the user is offered, and what their answers ask for.

use crate::text::{chars_of, decimal_digits, push_decimal};
use vstd::prelude::*;
use vstd::string::StringExecFns;

verus! {

/// Where to start, as the user answered when asked.
#[derive(Debug, Clone, Copy, PartialEq, Eq, Structural)]
pub enum StartChoice {
    /// The server with this number in the list of known servers.
    Server(u8),
    /// An address that the user will type.
    Custom,
    /// Nowhere: leave the program.
    Quit,
    /// The answer is none of those on offer: ask again.
    Invalid,
}

/// What the answer `input` asks for: `1`, `2` or `3` for a known server, `4`
/// for another address, `q` or `Q` to quit.
pub open spec fn start_choice_of(input: Seq<char>) -> StartChoice {
    if input == seq!['1'] {
        StartChoice::Server(1)
    } else if input == seq!['2'] {
        StartChoice::Server(2)
    } else if input == seq!['3'] {
        StartChoice::Server(3)
    } else if input == seq!['4'] {
        StartChoice::Custom
    } else if input == seq!['q'] || input == seq!['Q'] {
        StartChoice::Quit
    } else {
        StartChoice::Invalid
    }
}

/// The URI of the known server with the given number.
pub open spec fn server_uri_of(number: u8) -> Option<Seq<char>> {
    if number == 1 {
        Some("gopher://tramberend.de"@)
    } else if number == 2 {
        Some("gopher://gopher.floodgap.com"@)
    } else if number == 3 {
        Some("gopher://gopher.quux.org:70/"@)
    } else {
        None
    }
}

/// Reads the user's answer to the question where to start.
pub fn start_choice(input: &str) -> (choice: StartChoice)
    ensures
        choice == start_choice_of(input@),
{
    let answer = chars_of(input);
    if answer.len() != 1 {
        return StartChoice::Invalid;
    }
    assert(input@ == seq![answer[0]]);
    match answer[0] {
        '1' => StartChoice::Server(1),
        '2' => StartChoice::Server(2),
        '3' => StartChoice::Server(3),
        '4' => StartChoice::Custom,
        'q' | 'Q' => StartChoice::Quit,
        _ => StartChoice::Invalid,
    }
}

/// The URI of the known server with the given number, if there is one.
pub fn server_uri(number: u8) -> (uri: Option<&'static str>)
    ensures
        match uri {
            Some(uri) => server_uri_of(number) == Some(uri@),
            None => server_uri_of(number) is None,
        },
{
    match number {
        1 => Some("gopher://tramberend.de"),
        2 => Some("gopher://gopher.floodgap.com"),
        3 => Some("gopher://gopher.quux.org:70/"),
        _ => None,
    }
}

/// What to do with a binary file, as the user answered when asked.
#[derive(Debug, Clone, Copy, PartialEq, Eq, Structural)]
pub enum BinaryChoice {
    /// Store the file.
    Download,
    /// Store the file, then open it with the program that the system has for
    /// it.
    DownloadAndOpen,
    /// Leave it.
    Cancel,
}

/// What the answer `input` asks for: `1` to download, `2` to download and
/// open, anything else to cancel.
pub open spec fn binary_choice_of(input: Seq<char>) -> BinaryChoice {
    if input == seq!['1'] {
        BinaryChoice::Download
    } else if input == seq!['2'] {
        BinaryChoice::DownloadAndOpen
    } else {
        BinaryChoice::Cancel
    }
}

/// Reads the user's answer to the question what to do with a binary file.
pub fn binary_choice(input: &str) -> (choice: BinaryChoice)
    ensures
        choice == binary_choice_of(input@),
{
    let answer = chars_of(input);
    if answer.len() == 1 && answer[0] == '1' {
        assert(input@ == seq!['1']);
        BinaryChoice::Download
    } else if answer.len() == 1 && answer[0] == '2' {
        assert(input@ == seq!['2']);
        BinaryChoice::DownloadAndOpen
    } else {
        BinaryChoice::Cancel
    }
}

/// The lines that tell the user what they can do at a menu of `item_count`
/// selectable items: quit and reload always, go back where there is a
/// history, and select where the menu has items.
pub open spec fn navigation_options_of(item_count: usize, has_history: bool) -> Seq<Seq<char>> {
    seq!["Navigation Options:"@, "  (Q)uit   - Exit program"@] + (if has_history {
        seq!["  (B)ack   - Return to previous menu"@]
    } else {
        Seq::empty()
    }) + seq!["  (R)eload - Refresh current menu"@] + (if item_count > 0 {
        seq!["  [0-"@ + decimal_digits((item_count - 1) as nat) + "]   - Select menu item"@]
    } else {
        Seq::empty()
    })
}

/// The lines that tell the user what they can do.
pub fn navigation_options(item_count: usize, has_history: bool) -> (options: Vec<String>)
    ensures
        options@.map_values(|line: String| line@) == navigation_options_of(
            item_count,
            has_history,
        ),
{
    let mut options: Vec<String> = Vec::new();
    options.push(String::from_str("Navigation Options:"));
    options.push(String::from_str("  (Q)uit   - Exit program"));
    if has_history {
        options.push(String::from_str("  (B)ack   - Return to previous menu"));
    }
    options.push(String::from_str("  (R)eload - Refresh current menu"));
    if item_count > 0 {
        let mut range = String::from_str("  [0-");
        push_decimal(&mut range, (item_count - 1) as u64);
        range.append("]   - Select menu item");
        options.push(range);
    }
    assert(options@.map_values(|line: String| line@) == navigation_options_of(
        item_count,
        has_history,
    ));
    options
}

} // verus!
