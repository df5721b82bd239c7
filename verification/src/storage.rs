//! The macro library's storage rules: which identifiers name a document file,
//! which schema versions may be written or imported, how a folder listing
//! becomes the library (newest first, with a warning for each file that could
//! not be used), and how saves and deletions update the open library.
use vstd::prelude::*;
use crate::model::{MacroDocument, SCHEMA_VERSION};
use crate::text::{chars_of, is_text_before, lemma_text_before_irreflexive, lemma_text_before_transitive, str_equals, text_before};

verus! {

/// The longest macro identifier, in characters.
pub const MAX_ID_LENGTH: usize = 128;

/// Characters that may appear in a macro identifier: ASCII letters and
/// digits, `-` and `_`.
pub open spec fn id_char_allowed(c: char) -> bool {
    let n = c as u32;
    ||| 0x30 <= n <= 0x39
    ||| 0x41 <= n <= 0x5a
    ||| 0x61 <= n <= 0x7a
    ||| n == 0x2d
    ||| n == 0x5f
}

/// A macro identifier that names a file inside the library folder: it is
/// non-empty, at most `MAX_ID_LENGTH` long and uses only allowed characters,
/// so it can neither leave the folder nor hide as a dot file.
pub open spec fn valid_macro_id(id: Seq<char>) -> bool {
    &&& 0 < id.len() <= MAX_ID_LENGTH
    &&& forall|i: int| 0 <= i < id.len() ==> id_char_allowed(#[trigger] id[i])
}

/// The file name ending that marks a macro document.
pub open spec fn macro_file_suffix() -> Seq<char> {
    ".macro.json"@
}

fn char_allowed_in_id(c: char) -> (r: bool)
    ensures
        r == id_char_allowed(c),
{
    let n = c as u32;
    (0x30 <= n && n <= 0x39) || (0x41 <= n && n <= 0x5a) || (0x61 <= n && n <= 0x7a) || n == 0x2d
        || n == 0x5f
}

/// Whether an identifier may name a document file.
pub fn is_valid_macro_id(id: &str) -> (r: bool)
    ensures
        r == valid_macro_id(id@),
{
    let v = chars_of(id);
    if v.len() == 0 || v.len() > MAX_ID_LENGTH {
        return false;
    }
    let mut i: usize = 0;
    while i < v.len()
        invariant
            v@ == id@,
            i <= v.len(),
            forall|j: int| 0 <= j < i ==> id_char_allowed(#[trigger] v@[j]),
        decreases v.len() - i,
    {
        if !char_allowed_in_id(v[i]) {
            return false;
        }
        i = i + 1;
    }
    true
}

/// The file name, inside the library folder, of the document with this
/// identifier; an identifier that could escape or hide in the folder is refused.
pub fn document_path(id: &str) -> (r: Result<String, String>)
    ensures
        match r {
            Ok(name) => valid_macro_id(id@) && name@ == id@ + macro_file_suffix(),
            Err(e) => !valid_macro_id(id@) && e@ == "Invalid macro id"@,
        },
{
    if !is_valid_macro_id(id) {
        return Err("Invalid macro id".to_owned());
    }
    let name = String::from_str(id);
    let name = name.concat(".macro.json");
    Ok(name)
}

/// Whether a folder entry is a macro document file.
pub fn is_macro_file_name(name: &str) -> (r: bool)
    ensures
        r == (name@.len() >= macro_file_suffix().len() && name@.skip(
            name@.len() - macro_file_suffix().len(),
        ) == macro_file_suffix()),
{
    let v = chars_of(name);
    let suffix = chars_of(".macro.json");
    if v.len() < suffix.len() {
        return false;
    }
    let start = v.len() - suffix.len();
    let mut i: usize = 0;
    while i < suffix.len()
        invariant
            v@ == name@,
            suffix@ == macro_file_suffix(),
            start + suffix.len() == v.len(),
            i <= suffix.len(),
            forall|j: int| 0 <= j < i ==> v@[start + j] == suffix@[j],
        decreases suffix.len() - i,
    {
        if v[start + i] != suffix[i] {
            assert(name@.skip(start as int)[i as int] != macro_file_suffix()[i as int]);
            return false;
        }
        i = i + 1;
    }
    assert(name@.skip(start as int) =~= macro_file_suffix());
    true
}

/// A document of another schema version cannot be written.
pub fn ensure_supported_schema(document: &MacroDocument) -> (r: Result<(), String>)
    ensures
        match r {
            Ok(()) => document.schema_version == SCHEMA_VERSION,
            Err(e) => document.schema_version != SCHEMA_VERSION && e@ == "Unsupported macro schema"@,
        },
{
    if document.schema_version != SCHEMA_VERSION {
        return Err("Unsupported macro schema".to_owned());
    }
    Ok(())
}

/// The decimal digit `d`.
pub open spec fn digit_char(d: nat) -> char {
    (48 + d) as char
}

/// The decimal representation of `n`, without leading zeros.
pub open spec fn decimal(n: nat) -> Seq<char>
    decreases n,
{
    if n < 10 {
        seq![digit_char(n)]
    } else {
        decimal(n / 10).push(digit_char(n % 10))
    }
}

/// The text of the decimal digit `d`.
fn digit_text(d: u32) -> (r: &'static str)
    requires
        d < 10,
    ensures
        r@ == seq![digit_char(d as nat)],
{
    proof {
        reveal_strlit("0");
        reveal_strlit("1");
        reveal_strlit("2");
        reveal_strlit("3");
        reveal_strlit("4");
        reveal_strlit("5");
        reveal_strlit("6");
        reveal_strlit("7");
        reveal_strlit("8");
        reveal_strlit("9");
    }
    match d {
        0 => "0",
        1 => "1",
        2 => "2",
        3 => "3",
        4 => "4",
        5 => "5",
        6 => "6",
        7 => "7",
        8 => "8",
        _ => "9",
    }
}

/// The decimal representation of `n`: no sign, no leading zeros.
fn decimal_text(n: u32) -> (r: String)
    ensures
        r@ == decimal(n as nat),
    decreases n,
{
    if n < 10 {
        String::from_str(digit_text(n))
    } else {
        let mut text = decimal_text(n / 10);
        text.append(digit_text(n % 10));
        text
    }
}

/// The error an import of a document of another schema version gives.
pub open spec fn import_version_message(version: u32) -> Seq<char> {
    "This macro uses schema version "@ + decimal(version as nat)
        + "; BetterMacro currently supports version "@ + decimal(SCHEMA_VERSION as nat) + "."@
}

/// Accepts an imported document only in the supported schema version.
pub fn check_imported(document: MacroDocument) -> (r: Result<MacroDocument, String>)
    ensures
        match r {
            Ok(d) => document.schema_version == SCHEMA_VERSION && d == document,
            Err(e) => document.schema_version != SCHEMA_VERSION && e@ == import_version_message(
                document.schema_version,
            ),
        },
{
    if document.schema_version != SCHEMA_VERSION {
        let mut message = String::from_str("This macro uses schema version ");
        let version = decimal_text(document.schema_version);
        message.append(version.as_str());
        message.append("; BetterMacro currently supports version ");
        let supported = decimal_text(SCHEMA_VERSION);
        message.append(supported.as_str());
        message.append(".");
        return Err(message);
    }
    Ok(document)
}

/// What reading one folder entry of the library gave.
pub enum LibraryEntry {
    /// The folder entry itself could not be read.
    Unreadable { error: String },
    /// A macro file that could not be read.
    ReadFailed { file_name: String, error: String },
    /// A macro file that does not hold a macro document.
    Invalid { file_name: String, error: String },
    /// A macro file that holds a document.
    Parsed { file_name: String, document: MacroDocument },
}

/// The warning an entry gives, if any.
pub open spec fn entry_warning(entry: LibraryEntry) -> Option<Seq<char>> {
    match entry {
        LibraryEntry::Unreadable { error } => Some(
            "A macro library entry could not be read: "@ + error@ + "."@,
        ),
        LibraryEntry::ReadFailed { file_name, error } => Some(
            file_name@ + " could not be read: "@ + error@ + "."@,
        ),
        LibraryEntry::Invalid { file_name, error } => Some(
            file_name@ + " is not a valid macro: "@ + error@ + "."@,
        ),
        LibraryEntry::Parsed { file_name, document } => if document.schema_version
            == SCHEMA_VERSION {
            None
        } else {
            Some(
                file_name@ + " uses unsupported schema version "@ + decimal(
                    document.schema_version as nat,
                ) + "."@,
            )
        },
    }
}

/// The document an entry contributes, if any.
pub open spec fn entry_document(entry: LibraryEntry) -> Option<MacroDocument> {
    match entry {
        LibraryEntry::Parsed { document, .. } => if document.schema_version == SCHEMA_VERSION {
            Some(document)
        } else {
            None
        },
        _ => None,
    }
}

/// The warnings of the entries, in order.
pub open spec fn library_warnings(entries: Seq<LibraryEntry>) -> Seq<Seq<char>>
    decreases entries.len(),
{
    if entries.len() == 0 {
        Seq::empty()
    } else {
        let rest = library_warnings(entries.drop_last());
        match entry_warning(entries.last()) {
            Some(w) => rest.push(w),
            None => rest,
        }
    }
}

/// The usable documents of the entries, in folder order.
pub open spec fn library_documents(entries: Seq<LibraryEntry>) -> Seq<MacroDocument>
    decreases entries.len(),
{
    if entries.len() == 0 {
        Seq::empty()
    } else {
        let rest = library_documents(entries.drop_last());
        match entry_document(entries.last()) {
            Some(d) => rest.push(d),
            None => rest,
        }
    }
}

/// Where a document goes in a list kept newest first: before the first
/// document modified strictly earlier, so documents of equal time keep their
/// order.
pub open spec fn newest_first_position(s: Seq<MacroDocument>, d: MacroDocument, p: nat) -> nat
    decreases s.len() - p,
{
    if p >= s.len() {
        s.len()
    } else if text_before(s[p as int].modified_at@, d.modified_at@) {
        p
    } else {
        newest_first_position(s, d, p + 1)
    }
}

/// The documents in the order of a stable sort by modification time, newest
/// first.
pub open spec fn sorted_newest_first(s: Seq<MacroDocument>) -> Seq<MacroDocument>
    decreases s.len(),
{
    if s.len() == 0 {
        Seq::empty()
    } else {
        let rest = sorted_newest_first(s.drop_last());
        rest.insert(newest_first_position(rest, s.last(), 0) as int, s.last())
    }
}

/// No document is followed by one modified later.
pub open spec fn is_newest_first(s: Seq<MacroDocument>) -> bool {
    forall|i: int, j: int|
        0 <= i < j < s.len() ==> !text_before(#[trigger] s[i].modified_at@, #[trigger] s[j].modified_at@)
}

/// Places a document into a list kept newest first.
fn insert_newest_first(sorted: &mut Vec<MacroDocument>, document: MacroDocument)
    ensures
        final(sorted)@ == old(sorted)@.insert(
            newest_first_position(old(sorted)@, document, 0) as int,
            document,
        ),
{
    let mut p: usize = 0;
    while p < sorted.len() && !is_text_before(
        sorted[p].modified_at.as_str(),
        document.modified_at.as_str(),
    )
        invariant
            p <= sorted.len(),
            sorted@ == old(sorted)@,
            newest_first_position(sorted@, document, 0) == newest_first_position(
                sorted@,
                document,
                p as nat,
            ),
        decreases sorted.len() - p,
    {
        p = p + 1;
    }
    sorted.insert(p, document);
}

/// Turns what reading the library folder gave into the library: the usable
/// documents, newest first, and one warning for each entry that could not be
/// used, in folder order.
pub fn assemble_library(entries: Vec<LibraryEntry>) -> (r: (Vec<MacroDocument>, Vec<String>))
    ensures
        r.0@ == sorted_newest_first(library_documents(entries@)),
        r.1@.map_values(|w: String| w@) == library_warnings(entries@),
{
    let ghost all = entries@;
    let mut entries = entries;
    let mut documents: Vec<MacroDocument> = Vec::new();
    let mut warnings: Vec<String> = Vec::new();
    let mut k: usize = 0;
    let n = entries.len();
    while entries.len() > 0
        invariant
            n == all.len(),
            k <= n,
            entries@ == all.skip(k as int),
            documents@ == sorted_newest_first(library_documents(all.take(k as int))),
            warnings@.map_values(|w: String| w@) == library_warnings(all.take(k as int)),
        decreases entries.len(),
    {
        let entry = entries.remove(0);
        let ghost before = all.take(k as int);
        assert(all.take(k + 1).drop_last() =~= before);
        assert(all.take(k + 1).last() == entry);
        let ghost old_warnings = warnings@;
        match entry {
            LibraryEntry::Unreadable { error } => {
                let mut w = String::from_str("A macro library entry could not be read: ");
                w.append(error.as_str());
                w.append(".");
                warnings.push(w);
            },
            LibraryEntry::ReadFailed { file_name, error } => {
                let mut w = file_name;
                w.append(" could not be read: ");
                w.append(error.as_str());
                w.append(".");
                warnings.push(w);
            },
            LibraryEntry::Invalid { file_name, error } => {
                let mut w = file_name;
                w.append(" is not a valid macro: ");
                w.append(error.as_str());
                w.append(".");
                warnings.push(w);
            },
            LibraryEntry::Parsed { file_name, document } => {
                if document.schema_version == SCHEMA_VERSION {
                    proof {
                        let ds = library_documents(before);
                        assert(library_documents(all.take(k + 1)) == ds.push(document));
                        assert(ds.push(document).drop_last() =~= ds);
                        assert(ds.push(document).last() == document);
                    }
                    insert_newest_first(&mut documents, document);
                } else {
                    let mut w = file_name;
                    w.append(" uses unsupported schema version ");
                    let version = decimal_text(document.schema_version);
                    w.append(version.as_str());
                    w.append(".");
                    warnings.push(w);
                }
            },
        }
        proof {
            assert(documents@ == sorted_newest_first(library_documents(all.take(k + 1))));
            assert(warnings@.map_values(|w: String| w@) =~= library_warnings(
                all.take(k + 1),
            ));
        }
        k = k + 1;
    }
    assert(all.take(n as int) =~= all);
    (documents, warnings)
}

/// The first document with identifier `id`, scanning from position `p`.
pub open spec fn position_of_id(s: Seq<MacroDocument>, id: Seq<char>, p: nat) -> Option<int>
    decreases s.len() - p,
{
    if p >= s.len() {
        None
    } else if s[p as int].id@ == id {
        Some(p as int)
    } else {
        position_of_id(s, id, p + 1)
    }
}

/// The open library after saving a document: it replaces the first document
/// with its identifier, or is appended when there is none.
pub open spec fn upserted(s: Seq<MacroDocument>, document: MacroDocument) -> Seq<MacroDocument> {
    match position_of_id(s, document.id@, 0) {
        Some(i) => s.update(i, document),
        None => s.push(document),
    }
}

/// The open library without the documents that have identifier `id`.
pub open spec fn without_id(s: Seq<MacroDocument>, id: Seq<char>) -> Seq<MacroDocument>
    decreases s.len(),
{
    if s.len() == 0 {
        s
    } else if s.last().id@ == id {
        without_id(s.drop_last(), id)
    } else {
        without_id(s.drop_last(), id).push(s.last())
    }
}

/// Records a saved document in the open library.
pub fn upsert_document(documents: &mut Vec<MacroDocument>, document: MacroDocument)
    ensures
        final(documents)@ == upserted(old(documents)@, document),
{
    let mut p: usize = 0;
    while p < documents.len() && !str_equals(documents[p].id.as_str(), document.id.as_str())
        invariant
            p <= documents.len(),
            documents@ == old(documents)@,
            position_of_id(documents@, document.id@, 0) == position_of_id(
                documents@,
                document.id@,
                p as nat,
            ),
        decreases documents.len() - p,
    {
        p = p + 1;
    }
    if p < documents.len() {
        documents.set(p, document);
    } else {
        documents.push(document);
    }
}

/// Drops the deleted document from the open library.
pub fn remove_documents_with_id(documents: &mut Vec<MacroDocument>, id: &str)
    ensures
        final(documents)@ == without_id(old(documents)@, id@),
{
    let ghost all = documents@;
    let mut rest: Vec<MacroDocument> = Vec::new();
    std::mem::swap(documents, &mut rest);
    let mut k: usize = 0;
    let n = rest.len();
    assert(all.take(0) =~= Seq::<MacroDocument>::empty());
    while rest.len() > 0
        invariant
            n == all.len(),
            k <= n,
            rest@ == all.skip(k as int),
            documents@ == without_id(all.take(k as int), id@),
        decreases rest.len(),
    {
        let d = rest.remove(0);
        assert(all.take(k + 1).drop_last() =~= all.take(k as int));
        assert(all.take(k + 1).last() == d);
        if !str_equals(d.id.as_str(), id) {
            documents.push(d);
        }
        k = k + 1;
    }
    assert(all.take(n as int) =~= all);
}


/// A valid identifier can neither name a parent folder nor a hidden file: it
/// holds no `/` and does not start with `.`.
pub proof fn law_valid_ids_stay_in_the_library(id: Seq<char>)
    requires
        valid_macro_id(id),
    ensures
        forall|i: int| 0 <= i < id.len() ==> id[i] != '/' && id[i] != '.',
        id[0] != '.',
{
    assert forall|i: int| 0 <= i < id.len() implies id[i] != '/' && id[i] != '.' by {
        assert(id_char_allowed(id[i]));
    }
}

proof fn lemma_position_bounds(s: Seq<MacroDocument>, d: MacroDocument, p: nat)
    requires
        p <= s.len(),
    ensures
        p <= newest_first_position(s, d, p) <= s.len(),
        forall|i: int|
            p <= i < newest_first_position(s, d, p) ==> !text_before(
                #[trigger] s[i].modified_at@,
                d.modified_at@,
            ),
        newest_first_position(s, d, p) < s.len() ==> text_before(
            s[newest_first_position(s, d, p) as int].modified_at@,
            d.modified_at@,
        ),
    decreases s.len() - p,
{
    if p < s.len() && !text_before(s[p as int].modified_at@, d.modified_at@) {
        lemma_position_bounds(s, d, p + 1);
    }
}

proof fn lemma_insert_keeps_newest_first(s: Seq<MacroDocument>, d: MacroDocument)
    requires
        is_newest_first(s),
    ensures
        is_newest_first(s.insert(newest_first_position(s, d, 0) as int, d)),
{
    let p = newest_first_position(s, d, 0) as int;
    lemma_position_bounds(s, d, 0);
    let t = s.insert(p, d);
    s.insert_ensures(p, d);
    assert forall|i: int, j: int| 0 <= i < j < t.len() implies !text_before(
        #[trigger] t[i].modified_at@,
        #[trigger] t[j].modified_at@,
    ) by {
        if j < p {
        } else if j == p {
            assert(t[i] == s[i]);
        } else if i < p {
            assert(t[j] == s[j - 1]);
        } else if i == p {
            assert(t[j] == s[j - 1]);
            assert(text_before(s[p].modified_at@, d.modified_at@));
            if text_before(d.modified_at@, s[j - 1].modified_at@) {
                lemma_text_before_transitive(
                    s[p].modified_at@,
                    d.modified_at@,
                    s[j - 1].modified_at@,
                );
                if j - 1 == p {
                    lemma_text_before_irreflexive(s[p].modified_at@);
                }
            }
        } else {
            assert(t[i] == s[i - 1]);
            assert(t[j] == s[j - 1]);
        }
    }
}

/// The library lists its documents newest first, and holds exactly the
/// documents it was given: sorting loses, adds and duplicates nothing.
pub proof fn law_library_is_newest_first(s: Seq<MacroDocument>)
    ensures
        is_newest_first(sorted_newest_first(s)),
        sorted_newest_first(s).to_multiset() == s.to_multiset(),
    decreases s.len(),
{
    broadcast use vstd::seq_lib::to_multiset_insert, vstd::seq_lib::to_multiset_build;

    if s.len() > 0 {
        law_library_is_newest_first(s.drop_last());
        let rest = sorted_newest_first(s.drop_last());
        lemma_position_bounds(rest, s.last(), 0);
        lemma_insert_keeps_newest_first(rest, s.last());
        assert(s.drop_last().push(s.last()) =~= s);
    } else {
        assert(sorted_newest_first(s) =~= s);
    }
}

proof fn lemma_position_of_id(s: Seq<MacroDocument>, id: Seq<char>, p: nat)
    ensures
        match position_of_id(s, id, p) {
            Some(i) => p <= i < s.len() && s[i].id@ == id && forall|j: int|
                p <= j < i ==> #[trigger] s[j].id@ != id,
            None => forall|j: int| p <= j < s.len() ==> #[trigger] s[j].id@ != id,
        },
    decreases s.len() - p,
{
    if p < s.len() && s[p as int].id@ != id {
        lemma_position_of_id(s, id, p + 1);
    }
}

/// After a save, looking the identifier up in the open library finds the
/// saved document, and every document with another identifier is kept.
pub proof fn law_saved_document_is_found(s: Seq<MacroDocument>, document: MacroDocument)
    ensures
        match position_of_id(upserted(s, document), document.id@, 0) {
            Some(i) => upserted(s, document)[i] == document,
            None => false,
        },
        forall|d: MacroDocument|
            d.id@ != document.id@ ==> (s.contains(d) <==> upserted(s, document).contains(d)),
{
    lemma_position_of_id(s, document.id@, 0);
    let t = upserted(s, document);
    lemma_position_of_id(t, document.id@, 0);
    match position_of_id(s, document.id@, 0) {
        Some(i) => {
            assert(t[i] == document);
            assert forall|d: MacroDocument| d.id@ != document.id@ implies (s.contains(d)
                <==> t.contains(d)) by {
                if s.contains(d) {
                    let k = choose|k: int| 0 <= k < s.len() && s[k] == d;
                    assert(k != i);
                    assert(t[k] == d);
                }
                if t.contains(d) {
                    let k = choose|k: int| 0 <= k < t.len() && t[k] == d;
                    assert(k != i);
                    assert(s[k] == d);
                }
            }
        },
        None => {
            assert(t[s.len() as int] == document);
            assert forall|d: MacroDocument| d.id@ != document.id@ implies (s.contains(d)
                <==> t.contains(d)) by {
                if s.contains(d) {
                    let k = choose|k: int| 0 <= k < s.len() && s[k] == d;
                    assert(t[k] == d);
                }
                if t.contains(d) {
                    let k = choose|k: int| 0 <= k < t.len() && t[k] == d;
                    assert(k != s.len());
                    assert(s[k] == d);
                }
            }
        },
    }
}

/// After a deletion the open library holds no document with the deleted
/// identifier, and still holds every other document.
pub proof fn law_deleted_document_is_gone(s: Seq<MacroDocument>, id: Seq<char>)
    ensures
        forall|i: int|
            0 <= i < without_id(s, id).len() ==> #[trigger] without_id(s, id)[i].id@ != id,
        forall|d: MacroDocument|
            #![trigger s.contains(d)]
            #![trigger without_id(s, id).contains(d)]
            d.id@ != id ==> (s.contains(d) <==> without_id(s, id).contains(d)),
    decreases s.len(),
{
    if s.len() > 0 {
        let rest = s.drop_last();
        law_deleted_document_is_gone(rest, id);
        let t = without_id(s, id);
        let u = without_id(rest, id);
        assert forall|d: MacroDocument| d.id@ != id implies (s.contains(d) <==> t.contains(d)) by {
            if s.contains(d) {
                let k = choose|k: int| 0 <= k < s.len() && s[k] == d;
                if k < s.len() - 1 {
                    assert(rest[k] == d);
                    assert(rest.contains(d));
                    assert(u.contains(d));
                    let m = choose|m: int| 0 <= m < u.len() && u[m] == d;
                    if s.last().id@ != id {
                        assert(t[m] == d);
                    }
                } else {
                    assert(t[u.len() as int] == d);
                }
            }
            if t.contains(d) {
                let k = choose|k: int| 0 <= k < t.len() && t[k] == d;
                if s.last().id@ != id && k == u.len() {
                    assert(d == s.last());
                    assert(s[s.len() - 1] == d);
                } else {
                    assert(u[k] == d);
                    assert(u.contains(d));
                    let m = choose|m: int| 0 <= m < rest.len() && rest[m] == d;
                    assert(s[m] == rest[m]);
                }
            }
        }
        assert forall|i: int| 0 <= i < t.len() implies #[trigger] t[i].id@ != id by {
            if i < u.len() {
                assert(t[i] == u[i]);
            }
        }
    }
}

} // verus!
