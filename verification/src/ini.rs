//! The theme descriptor, as the `tini` crate reads it.

use vstd::prelude::*;

verus! {

/// `tini::Ini`, a parsed descriptor. Nothing is known of its inside: it is only read
/// through the functions below.
#[verifier::external_type_specification]
#[verifier::external_body]
pub struct ExIni(tini::Ini);

/// `tini::Error`, why a descriptor could not be parsed. It is only passed on.
#[verifier::external_type_specification]
#[verifier::external_body]
pub struct ExIniError(tini::Error);

/// The raw values of a descriptor, by section and key.
pub type Entries = Map<(Seq<char>, Seq<char>), Seq<char>>;

/// What a parsed descriptor holds: the raw value stored under each section and key.
pub uninterp spec fn ini_entries(ini: tini::Ini) -> Map<(Seq<char>, Seq<char>), Seq<char>>;

/// What `tini::Ini::from_string` makes of a text: the entries of the descriptor,
/// or nothing where the text is malformed.
pub uninterp spec fn parsed_entries(text: Seq<char>) -> Option<Map<(Seq<char>, Seq<char>), Seq<char>>>;

/// What `tini::Ini::get::<u16>` makes of a raw value: the number it parses to, if any.
pub uninterp spec fn parsed_u16(value: Seq<char>) -> Option<u16>;

/// What `str::trim` leaves of a text, as `tini::Ini::get_vec` applies it to each
/// field: the text without the white space at its ends.
pub uninterp spec fn trimmed(field: Seq<char>) -> Seq<char>;

/// The pieces of `text` between separators, from the piece that starts at `start`
/// on, with the scan standing at `at`.
pub open spec fn pieces_from(text: Seq<char>, separator: char, start: nat, at: nat) -> Seq<
    Seq<char>,
>
    decreases text.len() - at,
{
    if at >= text.len() {
        seq![text.subrange(start as int, text.len() as int)]
    } else if text[at as int] == separator {
        seq![text.subrange(start as int, at as int)] + pieces_from(text, separator, at + 1, at + 1)
    } else {
        pieces_from(text, separator, start, at + 1)
    }
}

/// The pieces of `text` between separators; one more than there are separators.
pub open spec fn pieces(text: Seq<char>, separator: char) -> Seq<Seq<char>> {
    pieces_from(text, separator, 0, 0)
}

/// What `tini::Ini::get_vec::<String>` makes of a raw value: the pieces between its
/// commas, each trimmed.
pub open spec fn list_fields(value: Seq<char>) -> Seq<Seq<char>> {
    Seq::new(pieces(value, ',').len(), |i: int| trimmed(pieces(value, ',')[i]))
}

/// The views of a list of strings.
pub open spec fn texts(list: Seq<String>) -> Seq<Seq<char>> {
    list.map_values(|s: String| s@)
}

/// `tini::Ini::from_string`: parses a descriptor text. Trusted: the outcome is a
/// function of the text alone, success included.
#[verifier::external_body]
pub(crate) fn ini_from_text(text: &str) -> (r: Result<tini::Ini, tini::Error>)
    ensures
        r is Ok == parsed_entries(text@) is Some,
        r matches Ok(ini) ==> Some(ini_entries(ini)) == parsed_entries(text@),
{
    tini::Ini::from_string(text)
}

/// `tini::Ini::get::<u16>`: the value under `section` and `key`, parsed as a number.
/// Trusted: nothing comes back where the key is absent; where it is present, the
/// result depends on the raw value alone.
#[verifier::external_body]
pub(crate) fn ini_get_u16(ini: &tini::Ini, section: &str, key: &str) -> (r: Option<u16>)
    ensures
        r == if ini_entries(*ini).contains_key((section@, key@)) {
            parsed_u16(ini_entries(*ini)[(section@, key@)])
        } else {
            None
        },
{
    ini.get::<u16>(section, key)
}

/// `tini::Ini::get::<String>`: the raw value under `section` and `key`. Trusted: the
/// stored value comes back unchanged, and nothing where the key is absent.
#[verifier::external_body]
pub(crate) fn ini_get_text(ini: &tini::Ini, section: &str, key: &str) -> (r: Option<String>)
    ensures
        r is Some == ini_entries(*ini).contains_key((section@, key@)),
        r matches Some(v) ==> v@ == ini_entries(*ini)[(section@, key@)],
{
    ini.get::<String>(section, key)
}

/// `tini::Ini::get_vec::<String>`: the value under `section` and `key`, split at commas
/// and trimmed. Trusted: a list comes back exactly where the key is present; it holds
/// one field for each piece between commas, in order, each as `str::trim` leaves it.
#[verifier::external_body]
pub(crate) fn ini_get_list(ini: &tini::Ini, section: &str, key: &str) -> (r: Option<Vec<String>>)
    ensures
        r is Some == ini_entries(*ini).contains_key((section@, key@)),
        r matches Some(v) ==> texts(v@) == list_fields(ini_entries(*ini)[(section@, key@)]),
        r matches Some(v) ==> forall|i: int|
            0 <= i < v@.len() ==> (#[trigger] v@[i])@ == trimmed(
                pieces(ini_entries(*ini)[(section@, key@)], ',')[i],
            ),
{
    ini.get_vec::<String>(section, key)
}

} // verus!
