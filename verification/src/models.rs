//! Addresses, item types and menu items, and how each is read from text.

use crate::text::{
    all_digits, chars_of, decimal_digits, is_blank, is_whitespace, lemma_decimal_round_trip,
    lemma_split_at_separator, lemma_split_without_separator, parse_decimal, parse_number,
    push_decimal, split, split_chars, string_of, trim, trim_chars, views,
};
use crate::uri::{split_uri, uri_components, UriParts, UriPartsView};
use vstd::prelude::*;
use vstd::string::StringExecFns;

verus! {

/// The port of a Gopher server that states none.
pub const DEFAULT_PORT: u16 = 70;

/// The kinds of menu entry that the client knows.
#[derive(Debug, Clone, Copy, PartialEq, Eq, Structural)]
pub enum GopherItem {
    /// A text file.
    Text,
    /// A further menu.
    Directory,
    /// A line of the menu that is only shown.
    Info,
    /// A search service, which takes a query.
    Search,
    /// A binary file, such as an image.
    Image,
}

/// The item type that the tag character `tag` stands for, if any.
pub open spec fn item_type_of(tag: char) -> Option<GopherItem> {
    if tag == '0' {
        Some(GopherItem::Text)
    } else if tag == '1' {
        Some(GopherItem::Directory)
    } else if tag == 'i' {
        Some(GopherItem::Info)
    } else if tag == '7' {
        Some(GopherItem::Search)
    } else if tag == 'g' || tag == 'I' {
        Some(GopherItem::Image)
    } else {
        None
    }
}

impl GopherItem {
    /// The tag that a menu shows beside an item of this type. An `Info` line
    /// has none.
    pub open spec fn label(self) -> Seq<char> {
        match self {
            GopherItem::Directory => "[DIR]"@,
            GopherItem::Text => "[TXT]"@,
            GopherItem::Info => Seq::empty(),
            GopherItem::Search => "[SEARCH]"@,
            GopherItem::Image => "[IMG]"@,
        }
    }

    /// Whether a user can select an item of this type: all but `Info`.
    pub open spec fn selectable(self) -> bool {
        self != GopherItem::Info
    }

    /// Looks up the first character of a menu line in the table of types.
    pub fn from_tag(tag: char) -> (item_type: Option<GopherItem>)
        ensures
            item_type == item_type_of(tag),
    {
        match tag {
            '0' => Some(GopherItem::Text),
            '1' => Some(GopherItem::Directory),
            'i' => Some(GopherItem::Info),
            '7' => Some(GopherItem::Search),
            'g' | 'I' => Some(GopherItem::Image),
            _ => None,
        }
    }

    pub fn type_indicator(&self) -> (label: &'static str)
        ensures
            label@ == self.label(),
    {
        match self {
            GopherItem::Directory => "[DIR]",
            GopherItem::Text => "[TXT]",
            GopherItem::Info => {
                proof {
                    reveal_strlit("");
                }
                ""
            },
            GopherItem::Search => "[SEARCH]",
            GopherItem::Image => "[IMG]",
        }
    }

    pub fn is_selectable(&self) -> (yes: bool)
        ensures
            yes == self.selectable(),
    {
        match self {
            GopherItem::Info => false,
            _ => true,
        }
    }
}

/// Why a URI names no Gopher address.
#[derive(Debug, Clone, Copy, PartialEq, Eq)]
pub enum AddressError {
    /// The text is no absolute URI; the error says what is wrong with it.
    Malformed(url::ParseError),
    /// The scheme is not `gopher`.
    InvalidScheme,
    /// The URI names no host.
    MissingHost,
}

/// A place in Gopher space: a server and a selector on it.
#[derive(Debug, PartialEq, Eq)]
pub struct GopherUrl {
    pub host: String,
    pub port: u16,
    pub selector: String,
}

pub ghost struct GopherUrlView {
    pub host: Seq<char>,
    pub port: u16,
    pub selector: Seq<char>,
}

impl View for GopherUrl {
    type V = GopherUrlView;

    open spec fn view(&self) -> GopherUrlView {
        GopherUrlView { host: self.host@, port: self.port, selector: self.selector@ }
    }
}

impl Clone for GopherUrl {
    fn clone(&self) -> (copy: Self)
        ensures
            copy@ == self@,
    {
        GopherUrl { host: self.host.clone(), port: self.port, selector: self.selector.clone() }
    }
}

/// The address that the components of a URI name: the scheme has to be
/// `gopher` and a host has to be there; the port is 70 unless the URI states
/// one, and the selector is the path as it stands.
pub open spec fn resolve_parts(parts: UriPartsView) -> Result<GopherUrlView, AddressError> {
    if parts.scheme != "gopher"@ {
        Err(AddressError::InvalidScheme)
    } else {
        match parts.host {
            None => Err(AddressError::MissingHost),
            Some(host) => Ok(
                GopherUrlView {
                    host,
                    port: match parts.port {
                        Some(port) => port,
                        None => DEFAULT_PORT,
                    },
                    selector: parts.path,
                },
            ),
        }
    }
}

/// The address that a parsed URI names, or the reason why it names none.
pub open spec fn resolve(parsed: Result<UriPartsView, url::ParseError>) -> Result<
    GopherUrlView,
    AddressError,
> {
    match parsed {
        Ok(parts) => resolve_parts(parts),
        Err(error) => Err(AddressError::Malformed(error)),
    }
}

/// Whether `outcome` is `expected`, seen through the view of the address.
pub open spec fn resolves_to(
    outcome: Result<GopherUrl, AddressError>,
    expected: Result<GopherUrlView, AddressError>,
) -> bool {
    match outcome {
        Ok(url) => expected == Ok::<GopherUrlView, AddressError>(url@),
        Err(error) => expected == Err::<GopherUrlView, AddressError>(error),
    }
}

impl GopherUrlView {
    /// The server as `host:port`, the form in which a connection is asked for.
    pub open spec fn socket_address(self) -> Seq<char> {
        self.host + seq![':'] + decimal_digits(self.port as nat)
    }

    /// The request for the selector: the selector, then carriage return and
    /// line feed.
    pub open spec fn request(self) -> Seq<char> {
        self.selector + seq!['\r', '\n']
    }
}

impl GopherUrl {
    /// The server to connect to, as `host:port`.
    pub fn socket_address(&self) -> (address: String)
        ensures
            address@ == self@.socket_address(),
    {
        let mut address = self.host.clone();
        address.push(':');
        push_decimal(&mut address, self.port as u64);
        address
    }

    /// The line to send to the server once connected.
    pub fn request(&self) -> (line: String)
        ensures
            line@ == self@.request(),
    {
        let mut line = self.selector.clone();
        line.push('\r');
        line.push('\n');
        line
    }

    /// Builds the address that the components of a URI name.
    pub fn from_parts(parts: UriParts) -> (outcome: Result<GopherUrl, AddressError>)
        ensures
            resolves_to(outcome, resolve_parts(parts@)),
    {
        if parts.scheme != String::from_str("gopher") {
            return Err(AddressError::InvalidScheme);
        }
        match parts.host {
            None => Err(AddressError::MissingHost),
            Some(host) => {
                let port = match parts.port {
                    Some(port) => port,
                    None => DEFAULT_PORT,
                };
                Ok(GopherUrl { host, port, selector: parts.path })
            },
        }
    }

    /// Reads a `gopher://host[:port]/selector` URI.
    pub fn parse(uri: &str) -> (outcome: Result<GopherUrl, AddressError>)
        ensures
            resolves_to(outcome, resolve(uri_components(uri@))),
    {
        match split_uri(uri) {
            Ok(parts) => GopherUrl::from_parts(parts),
            Err(error) => Err(AddressError::Malformed(error)),
        }
    }
}

/// Why a line of a menu is no item.
#[derive(Debug, Clone, Copy, PartialEq, Eq)]
pub enum MenuError {
    /// The line is empty or holds only whitespace.
    EmptyLine,
    /// The line starts with a character that stands for no known type.
    UnsupportedItemType(char),
    /// The line has fewer than four tab-separated fields after its tag.
    MalformedItem,
    /// The fourth field is no number from 0 to 65535.
    InvalidPort,
}

/// One entry of a menu.
#[derive(Debug, PartialEq, Eq)]
pub struct MenuItem {
    pub item_type: GopherItem,
    pub display_text: String,
    pub selector: String,
    pub host: String,
    pub port: u16,
}

pub ghost struct MenuItemView {
    pub item_type: GopherItem,
    pub display_text: Seq<char>,
    pub selector: Seq<char>,
    pub host: Seq<char>,
    pub port: u16,
}

impl View for MenuItem {
    type V = MenuItemView;

    open spec fn view(&self) -> MenuItemView {
        MenuItemView {
            item_type: self.item_type,
            display_text: self.display_text@,
            selector: self.selector@,
            host: self.host@,
            port: self.port,
        }
    }
}

impl Clone for MenuItem {
    fn clone(&self) -> (copy: Self)
        ensures
            copy@ == self@,
    {
        MenuItem {
            item_type: self.item_type,
            display_text: self.display_text.clone(),
            selector: self.selector.clone(),
            host: self.host.clone(),
            port: self.port,
        }
    }
}

impl MenuItemView {
    /// Where the item points.
    pub open spec fn target(self) -> GopherUrlView {
        GopherUrlView { host: self.host, port: self.port, selector: self.selector }
    }

    /// A name for the file in which to store what the item points to: what
    /// follows the last `/` of the selector, or the display text where
    /// nothing follows it.
    pub open spec fn file_name(self) -> Seq<char> {
        let last = split(self.selector, '/').last();
        if last.len() > 0 {
            last
        } else {
            self.display_text
        }
    }

    /// The line that a menu shows for the item: an `Info` line indented by
    /// four spaces; any other item behind its index and the tag of its type.
    pub open spec fn display(self, index: Option<usize>) -> Seq<char>
        recommends
            self.item_type.selectable() ==> index is Some,
    {
        if self.item_type == GopherItem::Info {
            "    "@ + self.display_text
        } else {
            "["@ + decimal_digits(index.unwrap() as nat) + "] "@ + self.item_type.label() + " "@
                + self.display_text
        }
    }
}

/// The item that a line of a menu spells: a tag character, then the display
/// text, the selector, the host and the port, each parted from the next by a
/// tab. Fields after the fourth are passed over.
pub open spec fn parse_line(line: Seq<char>) -> Result<MenuItemView, MenuError> {
    if is_blank(line) {
        Err(MenuError::EmptyLine)
    } else {
        match item_type_of(line[0]) {
            None => Err(MenuError::UnsupportedItemType(line[0])),
            Some(item_type) => {
                let fields = split(line.drop_first(), '\t');
                if fields.len() < 4 {
                    Err(MenuError::MalformedItem)
                } else {
                    match parse_decimal(fields[3], u16::MAX as nat) {
                        None => Err(MenuError::InvalidPort),
                        Some(port) => Ok(
                            MenuItemView {
                                item_type,
                                display_text: trim(fields[0]),
                                selector: fields[1],
                                host: fields[2],
                                port: port as u16,
                            },
                        ),
                    }
                }
            },
        }
    }
}

/// Whether `outcome` is `expected`, seen through the view of the item.
pub open spec fn parses_to(
    outcome: Result<MenuItem, MenuError>,
    expected: Result<MenuItemView, MenuError>,
) -> bool {
    match outcome {
        Ok(item) => expected == Ok::<MenuItemView, MenuError>(item@),
        Err(error) => expected == Err::<MenuItemView, MenuError>(error),
    }
}

impl MenuItem {
    /// Reads one line of a menu.
    pub fn parse(line: &str) -> (outcome: Result<MenuItem, MenuError>)
        ensures
            parses_to(outcome, parse_line(line@)),
    {
        let chars = chars_of(line);
        MenuItem::parse_chars(chars.as_slice())
    }

    /// Reads one line of a menu, given as its characters.
    pub fn parse_chars(line: &[char]) -> (outcome: Result<MenuItem, MenuError>)
        ensures
            parses_to(outcome, parse_line(line@)),
    {
        if trim_chars(line).len() == 0 {
            return Err(MenuError::EmptyLine);
        }
        let tag = line[0];
        let item_type = match GopherItem::from_tag(tag) {
            Some(item_type) => item_type,
            None => {
                return Err(MenuError::UnsupportedItemType(tag));
            },
        };
        let fields = split_chars(vstd::slice::slice_subrange(line, 1, line.len()), '\t');
        assert(line@.subrange(1, line@.len() as int) == line@.drop_first());
        assert(views(fields@).len() == fields.len());
        if fields.len() < 4 {
            return Err(MenuError::MalformedItem);
        }
        assert(forall|i: int| 0 <= i < 4 ==> views(fields@)[i] == fields[i]@);
        let port: u16 = match parse_number(fields[3], u16::MAX as u64) {
            Some(port) => port as u16,
            None => {
                return Err(MenuError::InvalidPort);
            },
        };
        Ok(
            MenuItem {
                item_type,
                display_text: string_of(trim_chars(fields[0])),
                selector: string_of(fields[1]),
                host: string_of(fields[2]),
                port,
            },
        )
    }

    /// A name for the file in which to store what the item points to.
    pub fn file_name(&self) -> (name: String)
        ensures
            name@ == self@.file_name(),
    {
        let selector = chars_of(self.selector.as_str());
        let segments = split_chars(selector.as_slice(), '/');
        proof {
            crate::text::lemma_split_nonempty(selector@, '/');
        }
        assert(views(segments@).len() == segments.len());
        let last = segments[segments.len() - 1];
        assert(views(segments@).last() == last@);
        if last.len() > 0 {
            string_of(last)
        } else {
            self.display_text.clone()
        }
    }

    /// The line that a menu shows for this item. A selectable item needs its
    /// index among the selectable items.
    pub fn display(&self, index: Option<usize>) -> (line: String)
        requires
            self.item_type.selectable() ==> index is Some,
        ensures
            line@ == self@.display(index),
    {
        match index {
            Some(index) if self.item_type.is_selectable() => {
                let mut line = String::from_str("[");
                push_decimal(&mut line, index as u64);
                line.append("] ");
                line.append(self.item_type.type_indicator());
                line.append(" ");
                line.append(self.display_text.as_str());
                line
            },
            _ => {
                let mut line = String::from_str("    ");
                line.append(self.display_text.as_str());
                line
            },
        }
    }
}

/// The text of a menu line: the tag, then the four fields, tabs between them.
pub open spec fn menu_line(
    tag: char,
    display_text: Seq<char>,
    selector: Seq<char>,
    host: Seq<char>,
    port: u16,
) -> Seq<char> {
    seq![tag] + display_text + seq!['\t'] + selector + seq!['\t'] + host + seq!['\t']
        + decimal_digits(port as nat)
}

/// A tag of the table is no whitespace, so a line that starts with one is
/// not blank.
proof fn lemma_tagged_line_is_not_blank(line: Seq<char>)
    requires
        line.len() > 0,
        item_type_of(line[0]) is Some,
    ensures
        !is_blank(line),
{
    assert(!is_whitespace(line[0]));
}

/// Reading a line gives back the fields it was written from: the type that
/// the tag stands for, the display text without the whitespace around it,
/// and selector, host and port as they were. The fields hold no tab; a tab
/// inside one would start the next.
pub proof fn lemma_parse_round_trip(
    tag: char,
    display_text: Seq<char>,
    selector: Seq<char>,
    host: Seq<char>,
    port: u16,
)
    requires
        item_type_of(tag) is Some,
        !display_text.contains('\t'),
        !selector.contains('\t'),
        !host.contains('\t'),
    ensures
        parse_line(menu_line(tag, display_text, selector, host, port)) == Ok::<
            MenuItemView,
            MenuError,
        >(
            MenuItemView {
                item_type: item_type_of(tag)->0,
                display_text: trim(display_text),
                selector,
                host,
                port,
            },
        ),
{
    let tab = seq!['\t'];
    let digits = decimal_digits(port as nat);
    let line = menu_line(tag, display_text, selector, host, port);
    let rest = display_text + tab + selector + tab + host + tab + digits;
    assert(line.drop_first() == rest);
    lemma_tagged_line_is_not_blank(line);
    lemma_decimal_round_trip(port as nat, u16::MAX as nat);
    assert(!digits.contains('\t')) by {
        if digits.contains('\t') {
            let i = choose|i: int| 0 <= i < digits.len() && digits[i] == '\t';
            assert(crate::text::is_digit(digits[i]));
        }
    }
    lemma_split_at_separator(display_text + tab + selector + tab + host, digits, '\t');
    lemma_split_at_separator(display_text + tab + selector, host, '\t');
    lemma_split_at_separator(display_text, selector, '\t');
    lemma_split_without_separator(display_text, '\t');
    lemma_split_without_separator(selector, '\t');
    lemma_split_without_separator(host, '\t');
    lemma_split_without_separator(digits, '\t');
    assert(split(rest, '\t') == seq![display_text, selector, host, digits]);
}

/// A line with a known tag and fewer than four fields behind it is
/// malformed, whatever the tag.
pub proof fn lemma_too_few_fields(line: Seq<char>)
    requires
        line.len() > 0,
        item_type_of(line[0]) is Some,
        split(line.drop_first(), '\t').len() < 4,
    ensures
        parse_line(line) == Err::<MenuItemView, MenuError>(MenuError::MalformedItem),
{
    lemma_tagged_line_is_not_blank(line);
}

/// An address that a URI resolves to has the port that the URI states, and
/// port 70 where it states none.
pub proof fn lemma_resolved_port(uri: Seq<char>)
    ensures
        resolve(uri_components(uri)) matches Ok(url) ==> {
            &&& uri_components(uri) matches Ok(parts)
            &&& parts.port matches Some(port) ==> url.port == port
            &&& parts.port is None ==> url.port == 70
        },
{
}

/// A URI of another scheme resolves to `InvalidScheme`, whatever its host
/// and path.
pub proof fn lemma_foreign_scheme(uri: Seq<char>)
    ensures
        uri_components(uri) matches Ok(parts) && parts.scheme != "gopher"@ ==> resolve(
            uri_components(uri),
        ) == Err::<GopherUrlView, AddressError>(AddressError::InvalidScheme),
{
}

} // verus!
