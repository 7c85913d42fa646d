//! The trusted boundary: items of `forensicnomicon`, `cfb` and std whose
//! contracts Verus takes on trust.
use vstd::prelude::*;

verus! {

/// The view of an optional string.
pub open spec fn opt_text(o: Option<String>) -> Option<Seq<char>> {
    match o {
        Some(s) => Some(s@),
        None => None,
    }
}

/// What `String::from_utf8_lossy` yields for a byte run.
pub uninterp spec fn utf8_lossy(bytes: Seq<u8>) -> Seq<char>;

/// The character a UTF-16 surrogate pair encodes.
pub open spec fn pair_char(high: u16, low: u16) -> char {
    (0x10000 + (high - 0xD800) * 0x400 + (low - 0xDC00)) as char
}

/// UTF-16 decoding with every unpaired surrogate replaced: a code unit outside
/// the surrogate range is its own character, a high surrogate followed by a
/// low one is the pair's character, and any other surrogate unit is one
/// U+FFFD REPLACEMENT CHARACTER.
#[verifier::opaque]
pub open spec fn utf16_lossy(units: Seq<u16>) -> Seq<char>
    decreases units.len(),
{
    if units.len() == 0 {
        Seq::empty()
    } else {
        let u = units[0];
        if u < 0xD800 || u > 0xDFFF {
            seq![u as char] + utf16_lossy(units.drop_first())
        } else if u <= 0xDBFF && units.len() >= 2 && 0xDC00 <= units[1] && units[1] <= 0xDFFF {
            seq![pair_char(u, units[1])] + utf16_lossy(units.subrange(2, units.len() as int))
        } else {
            seq!['\u{FFFD}'] + utf16_lossy(units.drop_first())
        }
    }
}

/// Whether every byte is ASCII (below 0x80).
pub open spec fn all_ascii(bytes: Seq<u8>) -> bool {
    forall|i: int| 0 <= i < bytes.len() ==> #[trigger] bytes[i] < 0x80
}

/// std `String::from_utf8_lossy`: the result is named `utf8_lossy` of the
/// bytes. Claimed beyond the name, as the documentation and UTF-8 give it:
/// ASCII bytes are valid UTF-8 and decode to the same characters, and the
/// text is empty exactly when the bytes are (every byte becomes part of a
/// character or of a replaced sequence). How invalid sequences are replaced
/// is left unsaid.
#[verifier::external_body]
pub fn decode_utf8_lossy(bytes: &[u8]) -> (s: String)
    ensures
        s@ == utf8_lossy(bytes@),
        all_ascii(bytes@) ==> s@ == bytes@.map_values(|b: u8| b as char),
        s@.len() == 0 <==> bytes@.len() == 0,
{
    String::from_utf8_lossy(bytes).into_owned()
}

/// std `String::from_utf16_lossy`: decodes the UTF-16 code units, replacing
/// invalid data (each unpaired surrogate) with U+FFFD, as `utf16_lossy` states.
#[verifier::external_body]
pub fn decode_utf16_lossy(units: &[u16]) -> (s: String)
    ensures
        s@ == utf16_lossy(units@),
{
    String::from_utf16_lossy(units)
}

} // verus!

verus! {

/// std `String::push`: appends one character.
#[verifier::external_body]
pub fn push_char(s: &mut String, c: char)
    ensures
        final(s)@ == old(s)@.push(c),
{
    s.push(c);
}

} // verus!

verus! {

// ── Format constants of `forensicnomicon` ────────────────────────────────────
// Each reads one constant; its contract states the constant's value as the
// crate's source defines it.

/// `forensicnomicon::shlink::HEADER_SIZE`, the fixed `ShellLinkHeader` size: claimed to be `0x4C`.
#[verifier::external_body]
pub fn header_size() -> (r: u32)
    ensures
        r == 0x4C,
{
    forensicnomicon::shlink::HEADER_SIZE
}

/// `forensicnomicon::shlink::LINK_FLAG_HAS_LINK_TARGET_ID_LIST`, the `HasLinkTargetIDList` bit: claimed to be `0x1`.
#[verifier::external_body]
pub fn flag_has_link_target_id_list() -> (r: u32)
    ensures
        r == 0x1,
{
    forensicnomicon::shlink::LINK_FLAG_HAS_LINK_TARGET_ID_LIST
}

/// `forensicnomicon::shlink::LINK_FLAG_HAS_LINK_INFO`, the `HasLinkInfo` bit: claimed to be `0x2`.
#[verifier::external_body]
pub fn flag_has_link_info() -> (r: u32)
    ensures
        r == 0x2,
{
    forensicnomicon::shlink::LINK_FLAG_HAS_LINK_INFO
}

/// `forensicnomicon::shlink::LINK_FLAG_HAS_NAME`, the `HasName` bit: claimed to be `0x4`.
#[verifier::external_body]
pub fn flag_has_name() -> (r: u32)
    ensures
        r == 0x4,
{
    forensicnomicon::shlink::LINK_FLAG_HAS_NAME
}

/// `forensicnomicon::shlink::LINK_FLAG_HAS_RELATIVE_PATH`, the `HasRelativePath` bit: claimed to be `0x8`.
#[verifier::external_body]
pub fn flag_has_relative_path() -> (r: u32)
    ensures
        r == 0x8,
{
    forensicnomicon::shlink::LINK_FLAG_HAS_RELATIVE_PATH
}

/// `forensicnomicon::shlink::LINK_FLAG_HAS_WORKING_DIR`, the `HasWorkingDir` bit: claimed to be `0x10`.
#[verifier::external_body]
pub fn flag_has_working_dir() -> (r: u32)
    ensures
        r == 0x10,
{
    forensicnomicon::shlink::LINK_FLAG_HAS_WORKING_DIR
}

/// `forensicnomicon::shlink::LINK_FLAG_HAS_ARGUMENTS`, the `HasArguments` bit: claimed to be `0x20`.
#[verifier::external_body]
pub fn flag_has_arguments() -> (r: u32)
    ensures
        r == 0x20,
{
    forensicnomicon::shlink::LINK_FLAG_HAS_ARGUMENTS
}

/// `forensicnomicon::shlink::LINK_FLAG_HAS_ICON_LOCATION`, the `HasIconLocation` bit: claimed to be `0x40`.
#[verifier::external_body]
pub fn flag_has_icon_location() -> (r: u32)
    ensures
        r == 0x40,
{
    forensicnomicon::shlink::LINK_FLAG_HAS_ICON_LOCATION
}

/// `forensicnomicon::shlink::LINK_FLAG_IS_UNICODE`, the `IsUnicode` bit: claimed to be `0x80`.
#[verifier::external_body]
pub fn flag_is_unicode() -> (r: u32)
    ensures
        r == 0x80,
{
    forensicnomicon::shlink::LINK_FLAG_IS_UNICODE
}

/// `forensicnomicon::shlink::EXTRA_TRACKER_DATA_BLOCK`, the `TrackerDataBlock` signature: claimed to be `0xA000_0003`.
#[verifier::external_body]
pub fn tracker_block_signature() -> (r: u32)
    ensures
        r == 0xA000_0003,
{
    forensicnomicon::shlink::EXTRA_TRACKER_DATA_BLOCK
}

/// `forensicnomicon::shlink::EXTRA_DATA_TERMINAL_BLOCK_SIZE`, the block size below which the ExtraData chain ends: claimed to be `4`.
#[verifier::external_body]
pub fn terminal_block_size() -> (r: u32)
    ensures
        r == 4,
{
    forensicnomicon::shlink::EXTRA_DATA_TERMINAL_BLOCK_SIZE
}

/// `forensicnomicon::jumplist::DESTLIST_HEADER_FORMAT_VERSION_OFFSET`, offset of the `DestList` format version: claimed to be `0`.
#[verifier::external_body]
pub fn destlist_format_version_offset() -> (r: usize)
    ensures
        r == 0,
{
    forensicnomicon::jumplist::DESTLIST_HEADER_FORMAT_VERSION_OFFSET
}

/// `forensicnomicon::jumplist::DESTLIST_HEADER_SIZE`, size of the `DestList` header: claimed to be `32`.
#[verifier::external_body]
pub fn destlist_header_size() -> (r: usize)
    ensures
        r == 32,
{
    forensicnomicon::jumplist::DESTLIST_HEADER_SIZE
}

/// `forensicnomicon::jumplist::DESTLIST_ENTRY_DROID_VOLUME_GUID_OFFSET`, entry offset of the droid volume GUID: claimed to be `8`.
#[verifier::external_body]
pub fn entry_droid_volume_offset() -> (r: usize)
    ensures
        r == 8,
{
    forensicnomicon::jumplist::DESTLIST_ENTRY_DROID_VOLUME_GUID_OFFSET
}

/// `forensicnomicon::jumplist::DESTLIST_ENTRY_DROID_FILE_GUID_OFFSET`, entry offset of the droid file GUID: claimed to be `24`.
#[verifier::external_body]
pub fn entry_droid_file_offset() -> (r: usize)
    ensures
        r == 24,
{
    forensicnomicon::jumplist::DESTLIST_ENTRY_DROID_FILE_GUID_OFFSET
}

/// `forensicnomicon::jumplist::DESTLIST_ENTRY_BIRTH_DROID_VOLUME_GUID_OFFSET`, entry offset of the birth droid volume GUID: claimed to be `40`.
#[verifier::external_body]
pub fn entry_birth_volume_offset() -> (r: usize)
    ensures
        r == 40,
{
    forensicnomicon::jumplist::DESTLIST_ENTRY_BIRTH_DROID_VOLUME_GUID_OFFSET
}

/// `forensicnomicon::jumplist::DESTLIST_ENTRY_BIRTH_DROID_FILE_GUID_OFFSET`, entry offset of the birth droid file GUID: claimed to be `56`.
#[verifier::external_body]
pub fn entry_birth_file_offset() -> (r: usize)
    ensures
        r == 56,
{
    forensicnomicon::jumplist::DESTLIST_ENTRY_BIRTH_DROID_FILE_GUID_OFFSET
}

/// `forensicnomicon::jumplist::DESTLIST_ENTRY_HOSTNAME_OFFSET`, entry offset of the hostname: claimed to be `72`.
#[verifier::external_body]
pub fn entry_hostname_offset() -> (r: usize)
    ensures
        r == 72,
{
    forensicnomicon::jumplist::DESTLIST_ENTRY_HOSTNAME_OFFSET
}

/// `forensicnomicon::jumplist::DESTLIST_ENTRY_HOSTNAME_SIZE`, size of the hostname field: claimed to be `16`.
#[verifier::external_body]
pub fn entry_hostname_size() -> (r: usize)
    ensures
        r == 16,
{
    forensicnomicon::jumplist::DESTLIST_ENTRY_HOSTNAME_SIZE
}

/// `forensicnomicon::jumplist::DESTLIST_ENTRY_ENTRY_NUMBER_OFFSET`, entry offset of the entry number: claimed to be `88`.
#[verifier::external_body]
pub fn entry_number_offset() -> (r: usize)
    ensures
        r == 88,
{
    forensicnomicon::jumplist::DESTLIST_ENTRY_ENTRY_NUMBER_OFFSET
}

/// `forensicnomicon::jumplist::DESTLIST_ENTRY_LAST_ACCESS_FILETIME_OFFSET`, entry offset of the last-access FILETIME: claimed to be `100`.
#[verifier::external_body]
pub fn entry_last_access_offset() -> (r: usize)
    ensures
        r == 100,
{
    forensicnomicon::jumplist::DESTLIST_ENTRY_LAST_ACCESS_FILETIME_OFFSET
}

/// `forensicnomicon::jumplist::DESTLIST_ENTRY_PIN_STATUS_OFFSET`, entry offset of the pin status: claimed to be `108`.
#[verifier::external_body]
pub fn entry_pin_status_offset() -> (r: usize)
    ensures
        r == 108,
{
    forensicnomicon::jumplist::DESTLIST_ENTRY_PIN_STATUS_OFFSET
}

/// `forensicnomicon::jumplist::DESTLIST_ENTRY_V1_PATH_SIZE_OFFSET`, v1 entry offset of the path length: claimed to be `112`.
#[verifier::external_body]
pub fn entry_v1_path_size_offset() -> (r: usize)
    ensures
        r == 112,
{
    forensicnomicon::jumplist::DESTLIST_ENTRY_V1_PATH_SIZE_OFFSET
}

/// `forensicnomicon::jumplist::DESTLIST_ENTRY_V1_PATH_OFFSET`, v1 entry offset of the path: claimed to be `114`.
#[verifier::external_body]
pub fn entry_v1_path_offset() -> (r: usize)
    ensures
        r == 114,
{
    forensicnomicon::jumplist::DESTLIST_ENTRY_V1_PATH_OFFSET
}

/// `forensicnomicon::jumplist::DESTLIST_ENTRY_V2_ACCESS_COUNT_OFFSET`, v2 entry offset of the access count: claimed to be `116`.
#[verifier::external_body]
pub fn entry_v2_access_count_offset() -> (r: usize)
    ensures
        r == 116,
{
    forensicnomicon::jumplist::DESTLIST_ENTRY_V2_ACCESS_COUNT_OFFSET
}

/// `forensicnomicon::jumplist::DESTLIST_ENTRY_V2_PATH_SIZE_OFFSET`, v2 entry offset of the path length: claimed to be `128`.
#[verifier::external_body]
pub fn entry_v2_path_size_offset() -> (r: usize)
    ensures
        r == 128,
{
    forensicnomicon::jumplist::DESTLIST_ENTRY_V2_PATH_SIZE_OFFSET
}

/// `forensicnomicon::jumplist::DESTLIST_ENTRY_V2_PATH_OFFSET`, v2 entry offset of the path: claimed to be `130`.
#[verifier::external_body]
pub fn entry_v2_path_offset() -> (r: usize)
    ensures
        r == 130,
{
    forensicnomicon::jumplist::DESTLIST_ENTRY_V2_PATH_OFFSET
}

/// `forensicnomicon::jumplist::DESTLIST_ENTRY_V2_TRAILING_ALIGNMENT`, bytes of alignment after a v2 entry's path: claimed to be `4`.
#[verifier::external_body]
pub fn entry_v2_trailing_alignment() -> (r: usize)
    ensures
        r == 4,
{
    forensicnomicon::jumplist::DESTLIST_ENTRY_V2_TRAILING_ALIGNMENT
}

/// `forensicnomicon::jumplist::CUSTOM_DESTINATIONS_FORMAT_VERSION`, the custom-destinations format version: claimed to be `2`.
#[verifier::external_body]
pub fn custom_format_version() -> (r: u32)
    ensures
        r == 2,
{
    forensicnomicon::jumplist::CUSTOM_DESTINATIONS_FORMAT_VERSION
}

/// `forensicnomicon::jumplist::CUSTOM_DESTINATIONS_FOOTER_SIGNATURE`, the custom-destinations footer signature: claimed to be `0xBABF_FBAB`.
#[verifier::external_body]
pub fn custom_footer_signature() -> (r: u32)
    ensures
        r == 0xBABF_FBAB,
{
    forensicnomicon::jumplist::CUSTOM_DESTINATIONS_FOOTER_SIGNATURE
}

/// `forensicnomicon::shlink::LINK_CLSID`, the `[MS-SHLLINK]` class identifier in
/// canonical text: claimed to be `00021401-0000-0000-C000-000000000046`.
#[verifier::external_body]
pub fn link_clsid() -> (r: &'static str)
    ensures
        r@ == link_clsid_text(),
{
    forensicnomicon::shlink::LINK_CLSID
}

/// `forensicnomicon::jumplist::LNK_CLSID`, the class identifier that prefixes
/// each shell link of a custom-destinations file: claimed to be the same text
/// as `LINK_CLSID`.
#[verifier::external_body]
pub fn jumplist_lnk_clsid() -> (r: &'static str)
    ensures
        r@ == link_clsid_text(),
{
    forensicnomicon::jumplist::LNK_CLSID
}

/// The `[MS-SHLLINK]` class identifier text.
pub open spec fn link_clsid_text() -> Seq<char> {
    "00021401-0000-0000-C000-000000000046"@
}

} // verus!

verus! {

// ── Outside computations ─────────────────────────────────────────────────────

/// What reading the stream at path `name` out of the CFB compound file whose
/// bytes are `file` gives: its contents, or `None` when the bytes do not open
/// as a compound file, hold no stream at that path, or the stream does not
/// read to its end. A function of the bytes and the name alone.
pub uninterp spec fn compound_stream(file: Seq<u8>, name: Seq<char>) -> Option<Seq<u8>>;

/// The eight-byte signature a CFB compound file opens with.
pub open spec fn compound_magic() -> Seq<u8> {
    seq![0xD0u8, 0xCFu8, 0x11u8, 0xE0u8, 0xA1u8, 0xB1u8, 0x1Au8, 0xE1u8]
}

/// `cfb::CompoundFile::open` over an in-memory cursor on the bytes, then
/// `open_stream(name)` and `read_to_end` of that stream. The result is named
/// `compound_stream(file, name)`: the stream's contents when every step
/// succeeds, `None` when one fails. Claimed beyond the name, from `open`'s
/// header check: bytes shorter than the 512-byte header, or not starting with
/// the CFB signature, give `None`.
#[verifier::external_body]
pub fn read_compound_stream(file: &[u8], name: &str) -> (r: Option<Vec<u8>>)
    ensures
        match r {
            Some(v) => compound_stream(file@, name@) == Some(v@),
            None => compound_stream(file@, name@) is None,
        },
        file@.len() < 512 || file@.subrange(0, 8) != compound_magic() ==> r is None,
{
    let mut comp = cfb::CompoundFile::open(std::io::Cursor::new(file)).ok()?;
    let mut stream = comp.open_stream(name).ok()?;
    let mut buf = Vec::new();
    std::io::Read::read_to_end(&mut stream, &mut buf).ok()?;
    Some(buf)
}

} // verus!

verus! {

/// std `String::push_str`: appends the text of `t`.
#[verifier::external_body]
pub fn push_text(s: &mut String, t: &str)
    ensures
        final(s)@ == old(s)@ + t@,
{
    s.push_str(t);
}

/// What std's `Debug` formatting (`{:?}`) renders for a string: the text
/// quoted, with escapes.
pub uninterp spec fn debug_text(s: Seq<char>) -> Seq<char>;

/// Whether `c` is printable ASCII other than `"` and `\` — a character that
/// `Debug` writes as itself.
pub open spec fn plain_char(c: char) -> bool {
    ' ' <= c && c <= '~' && c != '"' && c != '\\'
}

/// Whether `c` is a hexadecimal digit of either case.
pub open spec fn hex_digit_char(c: char) -> bool {
    ('0' <= c && c <= '9') || ('a' <= c && c <= 'f') || ('A' <= c && c <= 'F')
}

/// Whether `e` is one escape of std's `Debug` for strings: a backslash, then
/// one of `t`, `r`, `n`, `0`, `'`, `"`, `\`, or `u{`, hexadecimal digits and `}`.
pub open spec fn debug_escape(e: Seq<char>) -> bool {
    &&& e.len() >= 2
    &&& e[0] == '\\'
    &&& ((e.len() == 2 && (e[1] == 't' || e[1] == 'r' || e[1] == 'n' || e[1] == '0' || e[1] == '\''
        || e[1] == '"' || e[1] == '\\'))
        || (e.len() >= 4 && e[1] == 'u' && e[2] == '{' && e.last() == '}'
            && forall|i: int| 3 <= i < e.len() - 1 ==> hex_digit_char(#[trigger] e[i])))
}

/// Whether `body` renders `s` character by character: each character in
/// order, written either as itself or as one escape.
pub open spec fn debug_body(s: Seq<char>, body: Seq<char>) -> bool
    decreases s.len(),
{
    if s.len() == 0 {
        body.len() == 0
    } else {
        ||| (body.len() >= 1 && body[0] == s[0] && debug_body(s.drop_first(), body.drop_first()))
        ||| exists|k: int| 2 <= k <= body.len() && #[trigger] debug_escape(body.take(k))
            && debug_body(s.drop_first(), body.skip(k))
    }
}

/// Whether `r` has the shape of std's `Debug` rendering of the text `s`: a
/// double quote, each character of `s` as itself or as an escape, and a
/// closing double quote.
pub open spec fn debug_rendering(s: Seq<char>, r: Seq<char>) -> bool {
    &&& r.len() >= 2
    &&& r[0] == '"'
    &&& r.last() == '"'
    &&& debug_body(s, r.subrange(1, r.len() - 1))
}

/// std `format!("{:?}", s)` of a string: the result is named `debug_text` of
/// the text. Claimed beyond the name, as `str`'s `Debug` and `char`'s
/// `escape_debug` document it: the text is written between double quotes,
/// each character either as itself or as an escape led by a backslash (`\t`,
/// `\r`, `\n`, `\0`, `\'`, `\"`, `\\`, or `\u{..}` with hexadecimal digits);
/// and text made only of printable ASCII other than `"` and `\` is written
/// as itself. Which characters get escaped, beyond that, is left unsaid.
#[verifier::external_body]
pub fn debug_quote(s: &str) -> (r: String)
    ensures
        r@ == debug_text(s@),
        debug_rendering(s@, r@),
        (forall|i: int| 0 <= i < s@.len() ==> plain_char(#[trigger] s@[i])) ==> r@ == seq!['"'] + s@ + seq!['"'],
{
    format!("{:?}", s)
}

/// The application name `forensicnomicon`'s table of well-known Jump List
/// `AppID`s gives for an `AppID`, if any.
pub uninterp spec fn known_application(app_id: Seq<char>) -> Option<Seq<char>>;

/// `forensicnomicon::jumplist::appid_name`: looks the `AppID` up in the
/// crate's table of well-known applications. The result is named
/// `known_application` of the `AppID` text; the table's contents are not
/// restated.
#[verifier::external_body]
pub fn application_for(app_id: &str) -> (r: Option<&'static str>)
    ensures
        match r {
            Some(name) => known_application(app_id@) == Some(name@),
            None => known_application(app_id@) is None,
        },
{
    forensicnomicon::jumplist::appid_name(app_id)
}

} // verus!
