//! The configuration document, and the two values in it that the tray controls.
//!
//! `toml_edit` parses and renders the document. Everything the tray does not
//! control stays as the user wrote it.

use toml_edit::{Decor, DocumentMut, Item, TomlError};
use vstd::prelude::*;

use crate::settings::{DictationPreferences, PreferencesView};

verus! {

/// `toml_edit::DocumentMut`, a parsed document that can be edited.
#[verifier::external_type_specification]
#[verifier::external_body]
pub struct ExDocumentMut(toml_edit::DocumentMut);

/// `toml_edit::Item`, an entry of a document: a value, a table or nothing.
#[verifier::external_type_specification]
#[verifier::external_body]
pub struct ExItem(toml_edit::Item);

/// `toml_edit::Decor`, the blank space and comments around a value.
#[verifier::external_type_specification]
#[verifier::external_body]
pub struct ExDecor(toml_edit::Decor);

/// `toml_edit::TomlError`, why a source is not valid TOML.
#[verifier::external_type_specification]
#[verifier::external_body]
pub struct ExTomlError(toml_edit::TomlError);

/// What `str::parse::<DocumentMut>` returns for this source.
pub uninterp spec fn parsed(source: Seq<char>) -> Result<DocumentMut, TomlError>;

/// What `DocumentMut::to_string` returns.
pub uninterp spec fn rendered(doc: DocumentMut) -> Seq<char>;

/// The document has the shape that the parser gives one: its root is a table, and
/// every inline table in it, at any depth, holds values only. Such a document can
/// be printed.
pub uninterp spec fn is_printable(doc: DocumentMut) -> bool;

/// What `Item::is_table_like` returns for the entry `table` of the document: it is
/// a table or an inline table. `None` where there is no entry.
pub uninterp spec fn entry_is_table(doc: DocumentMut, table: Seq<char>) -> Option<bool>;

/// The entry of the root under this key; `Item::None` where there is none.
pub uninterp spec fn entry_at(doc: DocumentMut, key: Seq<char>) -> Item;

/// The item `doc[table][key]`; `Item::None` where there is none.
pub uninterp spec fn item_at(doc: DocumentMut, table: Seq<char>, key: Seq<char>) -> Item;

/// The document after an assignment `doc[table][key] = item`.
pub uninterp spec fn with_item(
    doc: DocumentMut,
    table: Seq<char>,
    key: Seq<char>,
    item: Item,
) -> DocumentMut;

/// The text that the document holds in front of its keys and behind them: blank
/// space and comments, under the path of the key, for the keys at the top level
/// and those in a table at the top level. For a top-level table with a header this
/// is the text in front of the header and behind it. The text behind the last
/// element of the document stands under the empty path, as text in front.
pub uninterp spec fn comments(doc: DocumentMut) -> Map<Seq<Seq<char>>, (Seq<char>, Seq<char>)>;

/// The keys of the root, under the empty path, and of every table or inline table
/// at the top level, under its path, in the order in which the document keeps
/// them.
pub uninterp spec fn key_order(doc: DocumentMut) -> Map<Seq<Seq<char>>, Seq<Seq<char>>>;

/// What `toml_edit::value` returns for a string.
pub uninterp spec fn string_item(text: Seq<char>) -> Item;

/// What `Item::as_str` returns.
pub uninterp spec fn item_string(item: Item) -> Option<Seq<char>>;

/// Blank space and comments around the item, if it is a value: the `Decor` of
/// what `Item::as_value` returns.
pub uninterp spec fn value_decor(item: Item) -> Option<Decor>;

/// The item, a value, after its `Decor` was replaced.
pub uninterp spec fn with_decor(item: Item, decor: Decor) -> Item;

/// Why preferences could not be put into a document.
#[derive(Debug)]
pub enum DocumentError {
    /// The source is not valid TOML.
    Invalid(TomlError),
    /// `input` or `audio` is neither a table nor absent.
    NotATable,
}

/// The entry `table` of the document is absent, a table or an inline table, so
/// that keys can be set in it.
pub open spec fn holds_keys(doc: DocumentMut, table: Seq<char>) -> bool {
    entry_is_table(doc, table) != Some(false)
}

/// A string item that has taken the place of `old`: if that was a value, the
/// blank space and comments around it are kept.
pub open spec fn string_in_place_of(old: Item, text: Seq<char>) -> Item {
    match value_decor(old) {
        Some(decor) => with_decor(string_item(text), decor),
        None => string_item(text),
    }
}

/// The document with these preferences in it: two strings take the place of the
/// items that were there.
pub open spec fn with_preferences(doc: DocumentMut, preferences: PreferencesView) -> DocumentMut {
    with_item(
        with_item(
            doc,
            "input"@,
            "output_mode"@,
            string_in_place_of(
                item_at(doc, "input"@, "output_mode"@),
                preferences.output_mode.name(),
            ),
        ),
        "audio"@,
        "device"@,
        string_in_place_of(item_at(doc, "audio"@, "device"@), preferences.audio_device),
    )
}

/// `new` has all keys of `old`, in the same order; keys that were added come last.
pub open spec fn keeps_key_order(old: DocumentMut, new: DocumentMut) -> bool {
    forall|path: Seq<Seq<char>>| #[trigger]
        key_order(old).contains_key(path) ==> key_order(new).contains_key(path) && key_order(
            old,
        )[path].is_prefix_of(key_order(new)[path])
}

/// Putting preferences into `new` gives the same document as putting them into
/// `doc`.
pub open spec fn later_preferences_decide(doc: DocumentMut, new: DocumentMut) -> bool {
    forall|later: PreferencesView| #[trigger]
        with_preferences(new, later) == with_preferences(doc, later)
}

/// Both values that the tray controls can be set.
pub open spec fn takes_preferences(doc: DocumentMut) -> bool {
    holds_keys(doc, "input"@) && holds_keys(doc, "audio"@)
}

/// `item` holds the string `text`, with the blank space and comments that were
/// around `old`, if that was a value.
pub open spec fn replaces(item: Item, old: Item, text: Seq<char>) -> bool {
    &&& item_string(item) == Some(text)
    &&& value_decor(old) is Some ==> value_decor(item) == value_decor(old)
}

/// `new` holds the preferences, with the comments around the two values kept.
/// Compared with `doc`, every entry of the root but `input` and `audio` is the
/// same, and so is every other item inside those two. The text in front of and
/// behind every key and header, that behind the last element, and the order of
/// the keys are the same.
pub open spec fn only_preferences_differ(
    doc: DocumentMut,
    new: DocumentMut,
    preferences: PreferencesView,
) -> bool {
    &&& replaces(
        item_at(new, "input"@, "output_mode"@),
        item_at(doc, "input"@, "output_mode"@),
        preferences.output_mode.name(),
    )
    &&& replaces(
        item_at(new, "audio"@, "device"@),
        item_at(doc, "audio"@, "device"@),
        preferences.audio_device,
    )
    &&& forall|table: Seq<char>, key: Seq<char>|
        (table, key) != ("input"@, "output_mode"@) && (table, key) != ("audio"@, "device"@)
            ==> #[trigger] item_at(new, table, key) == item_at(doc, table, key)
    &&& forall|key: Seq<char>|
        key != "input"@ && key != "audio"@ ==> #[trigger] entry_at(new, key) == entry_at(doc, key)
    &&& comments(doc).submap_of(comments(new))
    &&& keeps_key_order(doc, new)
}

/// Calls `str::parse::<toml_edit::DocumentMut>`. What it returns depends on the
/// source alone. The root of a parsed document is a table, and the parser puts
/// nothing but values into an inline table.
#[verifier::external_body]
fn parse_document(source: &str) -> (r: Result<DocumentMut, TomlError>)
    ensures
        r == parsed(source@),
        r matches Ok(doc) ==> is_printable(doc),
{
    source.parse::<DocumentMut>()
}

/// Calls `DocumentMut::to_string`, whose text depends on the document alone. It
/// panics where the root is no table, and where an inline table with a trailing
/// comma holds something else than values.
#[verifier::external_body]
fn render_document(doc: &DocumentMut) -> (text: String)
    requires
        is_printable(*doc),
    ensures
        text@ == rendered(*doc),
{
    doc.to_string()
}

/// Calls `Table::get` on the root of the document and `Item::is_table_like` on
/// what it finds.
#[verifier::external_body]
fn is_table(doc: &DocumentMut, table: &str) -> (r: Option<bool>)
    requires
        is_printable(*doc),
    ensures
        r == entry_is_table(*doc, table@),
{
    doc.get(table).map(Item::is_table_like)
}

/// Indexes the document mutably twice, as in `&mut doc[table][key]`.
///
/// An entry that is missing is made, as the last one, first as `Item::None`. What
/// is then assigned through the reference is what the document holds there, and a
/// string there leaves the document printable. No other item is touched, no key
/// or text around one is lost, and keys can be set in the same tables as before.
/// An assignment to the same place that follows, at once or after one to a place
/// that already held a string, replaces this one without a trace. On an entry
/// `table` that is not a table the indexing panics.
#[verifier::external_body]
fn item_mut<'a>(doc: &'a mut DocumentMut, table: &str, key: &str) -> (item: &'a mut Item)
    requires
        is_printable(*old(doc)),
        holds_keys(*old(doc), table@),
    ensures
        *item == item_at(*old(doc), table@, key@),
        *final(doc) == with_item(*old(doc), table@, key@, *final(item)),
        item_at(*final(doc), table@, key@) == *final(item),
        forall|t: Seq<char>, k: Seq<char>|
            (t, k) != (table@, key@) ==> #[trigger] item_at(*final(doc), t, k) == item_at(
                *old(doc),
                t,
                k,
            ),
        forall|t: Seq<char>|
            t != table@ ==> #[trigger] entry_at(*final(doc), t) == entry_at(*old(doc), t),
        forall|t: Seq<char>| #[trigger] holds_keys(*final(doc), t) == holds_keys(*old(doc), t),
        item_string(*final(item)) is Some ==> is_printable(*final(doc)),
        comments(*old(doc)).submap_of(comments(*final(doc))),
        forall|path: Seq<Seq<char>>| #[trigger]
            key_order(*old(doc)).contains_key(path) ==> key_order(*final(doc)).contains_key(path)
                && key_order(*old(doc))[path].is_prefix_of(key_order(*final(doc))[path]),
        forall|later: Item| #[trigger]
            with_item(*final(doc), table@, key@, later) == with_item(
                *old(doc),
                table@,
                key@,
                later,
            ),
        forall|t: Seq<char>, k: Seq<char>, between: Item, later: Item|
            item_string(item_at(*old(doc), t, k)) is Some ==> #[trigger] with_item(
                with_item(*final(doc), t, k, between),
                table@,
                key@,
                later,
            ) == with_item(with_item(*old(doc), t, k, between), table@, key@, later),
{
    &mut doc[table][key]
}

/// Calls `toml_edit::value`, which makes a value that holds this string. Its decor
/// is the default, as that of every string made so: to give one the decor of
/// another changes nothing.
#[verifier::external_body]
fn make_string_item(text: &str) -> (item: Item)
    ensures
        item == string_item(text@),
        item_string(item) == Some(text@),
        value_decor(item) is Some,
        forall|other: Seq<char>| #[trigger]
            with_decor(string_item(other), value_decor(item)->0) == string_item(other),
{
    toml_edit::value(text)
}

/// Calls `Item::as_value`, and clones the `Value::decor` of what it returns.
#[verifier::external_body]
fn decor_of(item: &Item) -> (decor: Option<Decor>)
    ensures
        decor == value_decor(*item),
{
    item.as_value().map(|value| value.decor().clone())
}

/// Calls `Item::as_value_mut`, and `Value::decor_mut` on what it returns. Writing
/// through the reference changes the decor of a value, not the string in it.
#[verifier::external_body]
fn decor_mut(item: &mut Item) -> (decor: Option<&mut Decor>)
    ensures
        decor is Some <==> value_decor(*old(item)) is Some,
        decor is None ==> *final(item) == *old(item),
        decor matches Some(d) ==> {
            &&& value_decor(*old(item)) == Some(*d)
            &&& *final(item) == with_decor(*old(item), *final(d))
            &&& value_decor(*final(item)) == Some(*final(d))
            &&& item_string(*final(item)) == item_string(*old(item))
        },
{
    item.as_value_mut().map(|value| value.decor_mut())
}

/// Tells whether keys can be set in the entry `table` of a document.
fn can_hold_keys(doc: &DocumentMut, table: &str) -> (r: bool)
    requires
        is_printable(*doc),
    ensures
        r == holds_keys(*doc, table@),
{
    match is_table(doc, table) {
        Some(is_table) => is_table,
        None => true,
    }
}

/// Replace an item by a string, and keep the blank space and comments around it.
///
/// Replacing the string by another gives the same as replacing the old item by
/// that one.
pub fn set_string_preserving_decor(item: &mut Item, new_value: &str)
    ensures
        *final(item) == string_in_place_of(*old(item), new_value@),
        replaces(*final(item), *old(item), new_value@),
        value_decor(*final(item)) is Some,
        forall|later: Seq<char>| #[trigger]
            string_in_place_of(*final(item), later) == string_in_place_of(*old(item), later),
{
    let decor: Option<Decor> = decor_of(item);
    *item = make_string_item(new_value);
    if let Some(decor) = decor {
        if let Some(place) = decor_mut(item) {
            *place = decor;
        }
    }
}

/// Put the preferences into a document.
///
/// The document takes preferences again, and the last ones alone decide: those that were put in before leave no
/// trace, and putting in the same ones again changes nothing.
pub fn set_preferences(doc: &mut DocumentMut, preferences: &DictationPreferences)
    requires
        is_printable(*old(doc)),
        takes_preferences(*old(doc)),
    ensures
        *final(doc) == with_preferences(*old(doc), preferences@),
        is_printable(*final(doc)),
        takes_preferences(*final(doc)),
        only_preferences_differ(*old(doc), *final(doc), preferences@),
        later_preferences_decide(*old(doc), *final(doc)),
        with_preferences(*final(doc), preferences@) == *final(doc),
{
    set_string_preserving_decor(
        item_mut(doc, "input", "output_mode"),
        preferences.output_mode.as_str(),
    );
    let ghost between = *doc;
    set_string_preserving_decor(
        item_mut(doc, "audio", "device"),
        preferences.audio_device.as_str(),
    );
    proof {
        reveal_strlit("input");
        reveal_strlit("audio");
        assert("input"@[0] != "audio"@[0]);
        assert(("input"@, "output_mode"@) != ("audio"@, "device"@));
        assert(item_at(*doc, "input"@, "output_mode"@) == item_at(
            between,
            "input"@,
            "output_mode"@,
        ));
        assert(item_at(between, "audio"@, "device"@) == item_at(*old(doc), "audio"@, "device"@));
        assert forall|table: Seq<char>, key: Seq<char>|
            (table, key) != ("input"@, "output_mode"@) && (table, key) != (
                "audio"@,
                "device"@,
            ) implies #[trigger] item_at(*doc, table, key) == item_at(*old(doc), table, key) by {
            assert(item_at(between, table, key) == item_at(*old(doc), table, key));
        }
        vstd::map_lib::lemma_submap_of_trans(
            comments(*old(doc)),
            comments(between),
            comments(*doc),
        );
        assert forall|path: Seq<Seq<char>>| #[trigger]
            key_order(*old(doc)).contains_key(path) implies key_order(*doc).contains_key(path)
            && key_order(*old(doc))[path].is_prefix_of(key_order(*doc)[path]) by {
            assert(key_order(between).contains_key(path));
        }
        assert forall|later: PreferencesView| #[trigger]
            with_preferences(*doc, later) == with_preferences(*old(doc), later) by {
            let mode = string_in_place_of(
                item_at(*old(doc), "input"@, "output_mode"@),
                later.output_mode.name(),
            );
            assert(item_string(item_at(between, "input"@, "output_mode"@)) is Some);
            assert(with_item(between, "input"@, "output_mode"@, mode) == with_item(
                *old(doc),
                "input"@,
                "output_mode"@,
                mode,
            ));
        }
        assert(with_preferences(*doc, preferences@) == with_preferences(
            *old(doc),
            preferences@,
        ));
    }
}

/// Update only the tray-controlled keys while preserving comments, API keys, and
/// the rest of the user's TOML formatting.
///
/// What is said of the result is said of the document that is printed: how it is
/// spelled, and what is read back from that text, is left to `toml_edit`.
pub fn update_preferences_document(source: &str, preferences: &DictationPreferences) -> (r: Result<
    String,
    DocumentError,
>)
    requires
        parsed(source@) matches Ok(doc) ==> takes_preferences(doc),
    ensures
        match parsed(source@) {
            Ok(doc) => {
                &&& r is Ok
                &&& r->Ok_0@ == rendered(with_preferences(doc, preferences@))
                &&& only_preferences_differ(
                    doc,
                    with_preferences(doc, preferences@),
                    preferences@,
                )
                &&& takes_preferences(with_preferences(doc, preferences@))
                &&& later_preferences_decide(doc, with_preferences(doc, preferences@))
            },
            Err(error) => r == Err::<String, DocumentError>(DocumentError::Invalid(error)),
        },
{
    match parse_document(source) {
        Ok(doc) => {
            let mut doc: DocumentMut = doc;
            set_preferences(&mut doc, preferences);
            Ok(render_document(&doc))
        },
        Err(error) => Err(DocumentError::Invalid(error)),
    }
}

/// Update the tray-controlled keys of any source: one in which `input` or `audio`
/// is something else than a table is refused.
pub fn try_update_preferences_document(source: &str, preferences: &DictationPreferences) -> (r:
    Result<String, DocumentError>)
    ensures
        match parsed(source@) {
            Ok(doc) => if takes_preferences(doc) {
                &&& r is Ok
                &&& r->Ok_0@ == rendered(with_preferences(doc, preferences@))
                &&& only_preferences_differ(
                    doc,
                    with_preferences(doc, preferences@),
                    preferences@,
                )
                &&& takes_preferences(with_preferences(doc, preferences@))
                &&& later_preferences_decide(doc, with_preferences(doc, preferences@))
            } else {
                r == Err::<String, DocumentError>(DocumentError::NotATable)
            },
            Err(error) => r == Err::<String, DocumentError>(DocumentError::Invalid(error)),
        },
{
    match parse_document(source) {
        Ok(doc) => {
            if can_hold_keys(&doc, "input") && can_hold_keys(&doc, "audio") {
                update_preferences_document(source, preferences)
            } else {
                Err(DocumentError::NotATable)
            }
        },
        Err(error) => Err(DocumentError::Invalid(error)),
    }
}

/// Compared with `doc`, `new` holds these two strings and differs in nothing else
/// that is kept under a key: other items, other entries of the root, the text
/// around keys, the decor of the two values and the order of the keys stay.
pub open spec fn holds_only(
    doc: DocumentMut,
    new: DocumentMut,
    mode: Seq<char>,
    device: Seq<char>,
) -> bool {
    let old_mode = item_at(doc, "input"@, "output_mode"@);
    let old_device = item_at(doc, "audio"@, "device"@);
    let new_mode = item_at(new, "input"@, "output_mode"@);
    let new_device = item_at(new, "audio"@, "device"@);
    &&& item_string(new_mode) == Some(mode)
    &&& item_string(new_device) == Some(device)
    &&& value_decor(old_mode) is Some ==> value_decor(new_mode) == value_decor(old_mode)
    &&& value_decor(old_device) is Some ==> value_decor(new_device) == value_decor(old_device)
    &&& forall|table: Seq<char>, key: Seq<char>|
        !(table == "input"@ && key == "output_mode"@) && !(table == "audio"@ && key == "device"@)
            ==> #[trigger] item_at(new, table, key) == item_at(doc, table, key)
    &&& forall|key: Seq<char>|
        key != "input"@ && key != "audio"@ ==> #[trigger] entry_at(new, key) == entry_at(doc, key)
    &&& comments(doc).submap_of(comments(new))
    &&& forall|path: Seq<Seq<char>>| #[trigger]
        key_order(doc).contains_key(path) ==> key_order(new).contains_key(path) && key_order(
            doc,
        )[path].is_prefix_of(key_order(new)[path])
}

/// A string takes the place of an item, and what was around a value stays.
pub proof fn law_set_string(item: &mut Item, new_value: &str)
    requires
        call_ensures(set_string_preserving_decor, (item, new_value), ()),
    ensures
        call_requires(set_string_preserving_decor, (item, new_value)),
        item_string(*final(item)) == Some(new_value@),
        value_decor(*old(item)) is Some ==> value_decor(*final(item)) == value_decor(*old(item)),
{
}

/// Into every document whose `input` and `audio` are tables or absent, preferences
/// can be put: the mode as `input.output_mode`, the device as `audio.device`.
pub proof fn law_set_preferences(doc: &mut DocumentMut, preferences: &DictationPreferences)
    requires
        call_ensures(set_preferences, (doc, preferences), ()),
        is_printable(*old(doc)),
        entry_is_table(*old(doc), "input"@) != Some(false),
        entry_is_table(*old(doc), "audio"@) != Some(false),
    ensures
        call_requires(set_preferences, (doc, preferences)),
        is_printable(*final(doc)),
        entry_is_table(*final(doc), "input"@) != Some(false),
        entry_is_table(*final(doc), "audio"@) != Some(false),
        preferences.output_mode is Type ==> holds_only(
            *old(doc),
            *final(doc),
            "type"@,
            preferences.audio_device@,
        ),
        preferences.output_mode is Paste ==> holds_only(
            *old(doc),
            *final(doc),
            "paste"@,
            preferences.audio_device@,
        ),
{
}

/// The text of an updated source is that of a document that holds the preferences
/// and all that the source held. A source that is no TOML is refused with the
/// parser's reason, and one whose `input` or `audio` is no table is refused too.
pub proof fn law_updated_document(
    source: &str,
    preferences: &DictationPreferences,
    r: Result<String, DocumentError>,
) -> (new: DocumentMut)
    requires
        call_ensures(try_update_preferences_document, (source, preferences), r),
    ensures
        call_requires(try_update_preferences_document, (source, preferences)),
        match parsed(source@) {
            Err(error) => r == Err::<String, DocumentError>(DocumentError::Invalid(error)),
            Ok(doc) => if entry_is_table(doc, "input"@) == Some(false) || entry_is_table(
                doc,
                "audio"@,
            ) == Some(false) {
                r == Err::<String, DocumentError>(DocumentError::NotATable)
            } else {
                &&& r is Ok
                &&& r->Ok_0@ == rendered(new)
                &&& preferences.output_mode is Type ==> holds_only(
                    doc,
                    new,
                    "type"@,
                    preferences.audio_device@,
                )
                &&& preferences.output_mode is Paste ==> holds_only(
                    doc,
                    new,
                    "paste"@,
                    preferences.audio_device@,
                )
            },
        },
{
    with_preferences(parsed(source@)->Ok_0, preferences@)
}

/// Where the tables are known to be in order, the update that asks for this gives
/// the same as the one that tests it.
pub proof fn law_updates_agree(
    source: &str,
    preferences: &DictationPreferences,
    r: Result<String, DocumentError>,
    tested: Result<String, DocumentError>,
)
    requires
        call_ensures(update_preferences_document, (source, preferences), r),
        call_ensures(try_update_preferences_document, (source, preferences), tested),
        parsed(source@) matches Ok(doc) ==> entry_is_table(doc, "input"@) != Some(false)
            && entry_is_table(doc, "audio"@) != Some(false),
    ensures
        call_requires(update_preferences_document, (source, preferences)),
        r is Ok <==> tested is Ok,
        r is Ok ==> r->Ok_0@ == tested->Ok_0@,
        r is Err ==> r == tested,
{
}

} // verus!
