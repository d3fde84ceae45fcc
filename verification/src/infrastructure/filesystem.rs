//! Which names may be written, under which name, and what kind of file it is.

use crate::domain::FileKind;
use crate::error::{ErrorModel, TransferError};
use crate::text::{
    assemble, characters, find_first, find_last, lower_text, raise_text, same_text,
    split_text, text_between,
};
use unicode_normalization::UnicodeNormalization;
use vstd::prelude::*;
use vstd::string::*;
use vstd::utf8::encode_utf8;

verus! {

/// The most bytes of a preview image.
pub const MAX_PREVIEW_BYTES: usize = 64 * 1024;

/// The most bytes of all previews of one offer.
pub const MAX_TOTAL_PREVIEW_BYTES: usize = 256 * 1024;

/// The most files of one transfer.
pub const MAX_FILE_COUNT: usize = 256;

/// The most bytes of a file that are moved at once.
pub const MAX_CHUNK_SIZE: usize = 256 * 1024;

/// The most bytes of a relative path.
pub const MAX_PATH_BYTES: usize = 4096;

/// The most bytes of one component of a relative path.
pub const MAX_COMPONENT_BYTES: usize = 255;

/// A character of the general category "control".
pub open spec fn control(character: char) -> bool {
    character < ' ' || '\u{7f}' <= character <= '\u{9f}'
}

/// A character that some file system does not take in a name.
pub open spec fn forbidden(character: char) -> bool {
    ||| control(character)
    ||| character == '<'
    ||| character == '>'
    ||| character == ':'
    ||| character == '"'
    ||| character == '|'
    ||| character == '?'
    ||| character == '*'
}

/// A text without the spaces and dots at its end.
pub open spec fn trimmed(text: Seq<char>) -> Seq<char>
    decreases text.len(),
{
    if text.len() > 0 && (text.last() == ' ' || text.last() == '.') {
        trimmed(text.drop_last())
    } else {
        text
    }
}

/// The part of a component that Windows compares with its device names.
pub open spec fn device_stem(component: Seq<char>) -> Seq<char> {
    crate::text::raised(trimmed(component.take(crate::text::first_index(component, '.'))))
}

/// Whether a text is the name of a Windows device.
pub open spec fn device_name(stem: Seq<char>) -> bool {
    ||| stem == "CON"@
    ||| stem == "PRN"@
    ||| stem == "AUX"@
    ||| stem == "NUL"@
    ||| stem.len() == 4 && (stem.take(3) == "COM"@ || stem.take(3) == "LPT"@) && '1' <= stem[3]
        <= '9'
}

/// A component that must not be written: one that names the directory itself
/// or its parent, or that some file system would refuse, change or confuse
/// with a device.
pub open spec fn unsafe_component(component: Seq<char>) -> bool {
    ||| component.len() == 0
    ||| encode_utf8(component).len() > MAX_COMPONENT_BYTES
    ||| component == "."@
    ||| component == ".."@
    ||| component.last() == ' '
    ||| component.last() == '.'
    ||| exists|place: int| 0 <= place < component.len() && forbidden(#[trigger] component[place])
    ||| device_name(device_stem(component))
}

/// A text that cannot be a relative path at all.
pub open spec fn unsafe_text(text: Seq<char>) -> bool {
    ||| text.len() == 0
    ||| encode_utf8(text).len() > MAX_PATH_BYTES
    ||| text.contains('\0')
    ||| text.contains('\\')
}

/// A relative path that may be written below a directory.
pub open spec fn safe_path(text: Seq<char>) -> bool {
    !unsafe_text(text) && forall|place: int|
        0 <= place < crate::text::pieces(text, '/').len() ==> !unsafe_component(
            #[trigger] crate::text::pieces(text, '/')[place],
        )
}

/// Why a relative path is refused.
pub open spec fn path_refusal(text: Seq<char>) -> ErrorModel {
    if unsafe_text(text) {
        ErrorModel::Invalid("unsafe relative path"@)
    } else {
        ErrorModel::Invalid("unsafe path component"@)
    }
}

/// A relative path that has been found safe, as its components.
#[derive(Debug, PartialEq, Eq)]
pub struct SafePath {
    components: Vec<String>,
}

impl View for SafePath {
    type V = Seq<Seq<char>>;

    closed spec fn view(&self) -> Seq<Seq<char>> {
        crate::text::texts(self.components@)
    }
}

impl SafePath {
    /// The path has a component, and none of them is unsafe.
    pub open spec fn wf(self) -> bool {
        &&& self@.len() > 0
        &&& forall|place: int|
            0 <= place < self@.len() ==> !unsafe_component(#[trigger] self@[place])
    }

    /// The path as text.
    pub fn text(&self) -> (text: String)
        ensures
            text@ == crate::text::assembled(self@, '/'),
    {
        assemble(&self.components, '/')
    }

    /// The number of components.
    pub fn len(&self) -> (length: usize)
        ensures
            length == self@.len(),
    {
        self.components.len()
    }

    /// One component of the path.
    pub fn component(&self, place: usize) -> (component: &str)
        requires
            place < self@.len(),
        ensures
            component@ == self@[place as int],
    {
        self.components[place].as_str()
    }

    /// The last component: the name of the file.
    pub fn name(&self) -> (name: &str)
        requires
            self.wf(),
        ensures
            name@ == self@.last(),
    {
        self.components[self.components.len() - 1].as_str()
    }
}

/// The texts of a non-empty safe path's components are the path again.
pub proof fn safe_path_keeps_its_text(text: Seq<char>)
    ensures
        crate::text::assembled(crate::text::pieces(text, '/'), '/') == text,
{
    crate::text::pieces_assemble_to_the_text(text, '/');
}

/// Where one reaches from a directory by following components, `.` staying and
/// `..` going up.
pub open spec fn followed(directory: Seq<Seq<char>>, components: Seq<Seq<char>>) -> Seq<Seq<char>>
    decreases components.len(),
{
    if components.len() == 0 {
        directory
    } else {
        let before = followed(directory, components.drop_last());
        if components.last() == "."@ || components.last().len() == 0 {
            before
        } else if components.last() == ".."@ {
            if before.len() == 0 {
                before
            } else {
                before.drop_last()
            }
        } else {
            before.push(components.last())
        }
    }
}

/// A safe path stays below the directory that it is followed from: it leads to
/// that directory's own path with the components behind it.
pub proof fn safe_path_stays_below(directory: Seq<Seq<char>>, text: Seq<char>)
    requires
        safe_path(text),
    ensures
        followed(directory, crate::text::pieces(text, '/')) == directory + crate::text::pieces(
            text,
            '/',
        ),
        crate::text::pieces(text, '/').len() > 0,
{
    let components = crate::text::pieces(text, '/');
    crate::text::pieces_assemble_to_the_text(text, '/');
    safe_components_stay_below(directory, components);
}

pub(crate) proof fn safe_components_stay_below(directory: Seq<Seq<char>>, components: Seq<Seq<char>>)
    requires
        forall|place: int|
            0 <= place < components.len() ==> !unsafe_component(#[trigger] components[place]),
    ensures
        followed(directory, components) == directory + components,
    decreases components.len(),
{
    if components.len() == 0 {
        assert(directory + components =~= directory);
    } else {
        let front = components.drop_last();
        assert forall|place: int| 0 <= place < front.len() implies !unsafe_component(
            #[trigger] front[place],
        ) by {
            assert(front[place] == components[place]);
        }
        safe_components_stay_below(directory, front);
        assert(components.last() == components[components.len() - 1]);
        assert((directory + front).push(components.last()) =~= directory + components);
    }
}

fn is_forbidden(character: char) -> (result: bool)
    ensures
        result == forbidden(character),
{
    character < ' ' || ('\u{7f}' <= character && character <= '\u{9f}') || character == '<'
        || character == '>' || character == ':' || character == '"' || character == '|'
        || character == '?' || character == '*'
}

/// Whether the component stands for a device on Windows.
pub fn windows_reserved_name(component: &str) -> (reserved: bool)
    ensures
        reserved == device_name(device_stem(component@)),
{
    let all = characters(component);
    let dot = find_first(&all, '.');
    let mut end: usize = dot;
    while end > 0 && (all[end - 1] == ' ' || all[end - 1] == '.')
        invariant
            end <= dot <= all@.len(),
            trimmed(all@.take(dot as int)) == trimmed(all@.take(end as int)),
        decreases end,
    {
        assert(all@.take(end as int).drop_last() =~= all@.take(end - 1));
        end -= 1;
    }
    proof {
        if end > 0 {
            assert(all@.take(end as int).last() == all@[end - 1]);
        }
    }
    let stem_text = raise_text(text_between(&all, 0, end).as_str());
    assert(all@.subrange(0, end as int) =~= all@.take(end as int));
    let stem = stem_text.as_str();
    if same_text(stem, "CON") || same_text(stem, "PRN") || same_text(stem, "AUX") || same_text(
        stem,
        "NUL",
    ) {
        return true;
    }
    let letters = characters(stem);
    if letters.len() != 4 {
        return false;
    }
    let family = text_between(&letters, 0, 3);
    assert(letters@.subrange(0, 3) =~= letters@.take(3));
    (same_text(family.as_str(), "COM") || same_text(family.as_str(), "LPT")) && '1' <= letters[3]
        && letters[3] <= '9'
}

fn is_unsafe_component(component: &str) -> (result: bool)
    ensures
        result == unsafe_component(component@),
{
    let all = characters(component);
    if all.len() == 0 || component.as_bytes().len() > MAX_COMPONENT_BYTES {
        return true;
    }
    if same_text(component, ".") || same_text(component, "..") {
        return true;
    }
    let last = all[all.len() - 1];
    if last == ' ' || last == '.' {
        return true;
    }
    let mut index: usize = 0;
    while index < all.len()
        invariant
            index <= all@.len(),
            all@ == component@,
            forall|place: int| 0 <= place < index ==> !forbidden(#[trigger] all@[place]),
        decreases all@.len() - index,
    {
        if is_forbidden(all[index]) {
            assert(forbidden(component@[index as int]));
            return true;
        }
        index += 1;
    }
    windows_reserved_name(component)
}

fn holds_character(text: &str, wanted: char) -> (found: bool)
    ensures
        found == text@.contains(wanted),
{
    let all = characters(text);
    let mut index: usize = 0;
    while index < all.len()
        invariant
            index <= all@.len(),
            all@ == text@,
            forall|place: int| 0 <= place < index ==> all@[place] != wanted,
        decreases all@.len() - index,
    {
        if all[index] == wanted {
            return true;
        }
        index += 1;
    }
    false
}

/// The components of a relative path that may be written below the receive
/// directory, or why it may not.
pub fn sanitize_relative_path(value: &str) -> (result: Result<SafePath, TransferError>)
    ensures
        match result {
            Ok(path) => {
                &&& safe_path(value@)
                &&& path@ == crate::text::pieces(value@, '/')
                &&& path.wf()
            },
            Err(error) => !safe_path(value@) && error@ == path_refusal(value@),
        },
{
    if value.as_bytes().len() > MAX_PATH_BYTES || value.is_empty() || holds_character(value, '\0')
        || holds_character(value, '\\') {
        return Err(TransferError::invalid("unsafe relative path"));
    }
    let components = split_text(value, '/');
    proof {
        crate::text::pieces_assemble_to_the_text(value@, '/');
    }
    let mut index: usize = 0;
    while index < components.len()
        invariant
            index <= components@.len(),
            !unsafe_text(value@),
            crate::text::texts(components@) == crate::text::pieces(value@, '/'),
            forall|place: int|
                0 <= place < index ==> !unsafe_component(
                    #[trigger] crate::text::pieces(value@, '/')[place],
                ),
        decreases components@.len() - index,
    {
        if is_unsafe_component(components[index].as_str()) {
            assert(unsafe_component(crate::text::pieces(value@, '/')[index as int]));
            return Err(TransferError::invalid("unsafe path component"));
        }
        index += 1;
    }
    Ok(SafePath { components })
}

/// The lower-case form of a character, which may be several characters.
pub uninterp spec fn lowercase(character: char) -> Seq<char>;

/// The canonical composition of a text.
pub uninterp spec fn composed(text: Seq<char>) -> Seq<char>;

/// `char::to_lowercase`: the characters that a character becomes in lower case.
#[verifier::external_body]
fn lowercase_text(character: char) -> (text: String)
    ensures
        text@ == lowercase(character),
{
    character.to_lowercase().collect()
}

/// `UnicodeNormalization::nfc`: the text in Unicode Normalization Form C.
#[verifier::external_body]
fn composed_text(text: &str) -> (result: String)
    ensures
        result@ == composed(text@),
{
    text.nfc().collect()
}

/// A text with each character in lower case.
pub open spec fn folded(text: Seq<char>) -> Seq<char>
    decreases text.len(),
{
    if text.len() == 0 {
        Seq::empty()
    } else {
        folded(text.drop_last()) + lowercase(text.last())
    }
}

/// The form in which two paths are compared: paths that a file system might
/// take for one another have the same key.
pub open spec fn path_key(path: Seq<char>) -> Seq<char> {
    folded(composed(path))
}

/// `text` with each character in lower case.
pub fn fold_case(text: &str) -> (result: String)
    ensures
        result@ == folded(text@),
{
    let all = characters(text);
    let mut result = String::new();
    let mut index: usize = 0;
    while index < all.len()
        invariant
            index <= all@.len(),
            all@ == text@,
            result@ == folded(text@.take(index as int)),
        decreases all@.len() - index,
    {
        assert(text@.take(index + 1).drop_last() =~= text@.take(index as int));
        result.append(lowercase_text(all[index]).as_str());
        index += 1;
    }
    assert(text@.take(text@.len() as int) =~= text@);
    result
}

/// The key under which a path collides with others on some file system.
pub fn portable_path_key(value: &str) -> (key: String)
    ensures
        key@ == path_key(value@),
{
    fold_case(composed_text(value).as_str())
}

/// The last component of a path, unless the path ends in the directory itself,
/// in a parent, or nowhere. Separators at the end and `.` behind a separator do
/// not count.
pub open spec fn file_name_of(path: Seq<char>) -> Option<Seq<char>>
    decreases path.len(),
{
    if path.len() > 0 && path.last() == '/' {
        file_name_of(path.drop_last())
    } else if path.len() > 1 && path.last() == '.' && path[path.len() - 2] == '/' {
        file_name_of(path.take(path.len() - 2))
    } else {
        let name = match crate::text::last_index(path, '/') {
            Some(place) => path.skip(place + 1),
            None => path,
        };
        if name.len() == 0 || name == "."@ || name == ".."@ {
            None
        } else {
            Some(name)
        }
    }
}

/// The part of a file name behind its last dot, if something stands before it.
pub open spec fn extension_of(name: Seq<char>) -> Option<Seq<char>> {
    match crate::text::last_index(name, '.') {
        Some(place) => if place > 0 {
            Some(name.skip(place + 1))
        } else {
            None
        },
        None => None,
    }
}

/// The part of a file name before its extension.
pub open spec fn stem_of(name: Seq<char>) -> Seq<char> {
    match crate::text::last_index(name, '.') {
        Some(place) => if place > 0 {
            name.take(place)
        } else {
            name
        },
        None => name,
    }
}

/// The lower-case extension of the file that a path names, or nothing.
pub open spec fn path_extension(path: Seq<char>) -> Seq<char> {
    match file_name_of(path) {
        Some(name) => match extension_of(name) {
            Some(extension) => crate::text::lowered(extension),
            None => Seq::empty(),
        },
        None => Seq::empty(),
    }
}

/// The last component of a path whose separator is `/`.
pub fn path_file_name(path: &str) -> (name: Option<String>)
    ensures
        match name {
            Some(name) => file_name_of(path@) == Some(name@),
            None => file_name_of(path@) is None,
        },
{
    let all = characters(path);
    let mut end: usize = all.len();
    assert(all@.take(end as int) =~= path@);
    while end > 0 && (all[end - 1] == '/' || (end > 1 && all[end - 1] == '.' && all[end - 2]
        == '/'))
        invariant
            end <= all@.len(),
            file_name_of(all@.take(end as int)) == file_name_of(path@),
        decreases end,
    {
        let ghost now = all@.take(end as int);
        assert(now.last() == all@[end - 1]);
        if all[end - 1] == '/' {
            assert(now.drop_last() =~= all@.take(end - 1));
            end -= 1;
        } else {
            assert(now[now.len() - 2] == all@[end - 2]);
            assert(now.take(now.len() - 2) =~= all@.take(end - 2));
            end -= 2;
        }
    }
    let rest_text = text_between(&all, 0, end);
    assert(all@.subrange(0, end as int) =~= all@.take(end as int));
    let rest = characters(rest_text.as_str());
    proof {
        crate::text::last_index_is_last(rest@, '/');
    }
    let start = match find_last(&rest, '/') {
        Some(place) => place + 1,
        None => 0,
    };
    let name = text_between(&rest, start, rest.len());
    assert(rest@.subrange(0, rest@.len() as int) =~= rest@);
    assert(start > 0 ==> rest@.subrange(start as int, rest@.len() as int) =~= rest@.skip(
        start as int,
    ));
    if name.as_str().is_empty() || same_text(name.as_str(), ".") || same_text(name.as_str(), "..") {
        None
    } else {
        Some(name)
    }
}

/// The lower-case extension of the file that `path` names, or nothing.
fn lower_extension(path: &str) -> (extension: String)
    ensures
        extension@ == path_extension(path@),
{
    match path_file_name(path) {
        Some(name) => {
            let all = characters(name.as_str());
            let end = all.len();
            match find_last(&all, '.') {
                Some(place) => if place > 0 {
                    assert(all@.subrange(place + 1, all@.len() as int) =~= all@.skip(place + 1));
                    lower_text(text_between(&all, place + 1, end).as_str())
                } else {
                    String::new()
                },
                None => String::new(),
            }
        },
        None => String::new(),
    }
}

/// The kind of file that an extension announces.
pub open spec fn kind_of_extension(extension: Seq<char>) -> FileKind {
    if extension == "png"@ || extension == "jpg"@ || extension == "jpeg"@ || extension == "gif"@
        || extension == "webp"@ || extension == "bmp"@ || extension == "heic"@ || extension
        == "avif"@ {
        FileKind::Image
    } else if extension == "pdf"@ {
        FileKind::Pdf
    } else if extension == "zip"@ || extension == "7z"@ || extension == "rar"@ || extension
        == "tar"@ || extension == "gz"@ || extension == "bz2"@ || extension == "xz"@ {
        FileKind::Archive
    } else {
        FileKind::File
    }
}

/// The media type that an extension announces.
pub open spec fn media_type_of_extension(extension: Seq<char>) -> Seq<char> {
    if extension == "png"@ {
        "image/png"@
    } else if extension == "jpg"@ || extension == "jpeg"@ {
        "image/jpeg"@
    } else if extension == "gif"@ {
        "image/gif"@
    } else if extension == "webp"@ {
        "image/webp"@
    } else if extension == "pdf"@ {
        "application/pdf"@
    } else if extension == "zip"@ {
        "application/zip"@
    } else if extension == "txt"@ || extension == "md"@ {
        "text/plain"@
    } else if extension == "mp4"@ {
        "video/mp4"@
    } else if extension == "mov"@ {
        "video/quicktime"@
    } else {
        "application/octet-stream"@
    }
}

/// The kind of the file that `path` names, by its extension in any case.
pub fn file_kind(path: &str) -> (kind: FileKind)
    ensures
        kind == kind_of_extension(path_extension(path@)),
{
    let extension_text = lower_extension(path);
    let extension = extension_text.as_str();
    if same_text(extension, "png") || same_text(extension, "jpg") || same_text(extension, "jpeg")
        || same_text(extension, "gif") || same_text(extension, "webp") || same_text(
        extension,
        "bmp",
    ) || same_text(extension, "heic") || same_text(extension, "avif") {
        FileKind::Image
    } else if same_text(extension, "pdf") {
        FileKind::Pdf
    } else if same_text(extension, "zip") || same_text(extension, "7z") || same_text(
        extension,
        "rar",
    ) || same_text(extension, "tar") || same_text(extension, "gz") || same_text(extension, "bz2")
        || same_text(extension, "xz") {
        FileKind::Archive
    } else {
        FileKind::File
    }
}

/// The media type of the file that `path` names, by its extension in any case.
pub fn media_type(path: &str) -> (media_type: &'static str)
    ensures
        media_type@ == media_type_of_extension(path_extension(path@)),
{
    let extension_text = lower_extension(path);
    let extension = extension_text.as_str();
    if same_text(extension, "png") {
        "image/png"
    } else if same_text(extension, "jpg") || same_text(extension, "jpeg") {
        "image/jpeg"
    } else if same_text(extension, "gif") {
        "image/gif"
    } else if same_text(extension, "webp") {
        "image/webp"
    } else if same_text(extension, "pdf") {
        "application/pdf"
    } else if same_text(extension, "zip") {
        "application/zip"
    } else if same_text(extension, "txt") || same_text(extension, "md") {
        "text/plain"
    } else if same_text(extension, "mp4") {
        "video/mp4"
    } else if same_text(extension, "mov") {
        "video/quicktime"
    } else {
        "application/octet-stream"
    }
}

/// A character is forbidden in a name exactly when it is one of the control
/// characters, up to U+001F or from U+007F to U+009F, or one of the seven signs
/// that Windows keeps for itself. So every letter, ideograph or other character
/// from U+00A0 up is allowed.
pub proof fn only_controls_and_seven_signs_are_forbidden(character: char)
    ensures
        forbidden(character) <==> {
            ||| character as int <= 0x1f
            ||| 0x7f <= character as int <= 0x9f
            ||| "<>:\"|?*"@.contains(character)
        },
        character as int >= 0xa0 ==> !forbidden(character),
{
    reveal_strlit("<>:\"|?*");
    let signs = "<>:\"|?*"@;
    assert(signs[0] == '<' && signs[1] == '>' && signs[2] == ':' && signs[3] == '"' && signs[4]
        == '|' && signs[5] == '?' && signs[6] == '*');
    if signs.contains(character) {
        let place = choose|place: int| 0 <= place < signs.len() && signs[place] == character;
        assert(0 <= place < 7);
    }
}

/// A name of characters from U+00A0 up, of at most 255 bytes, is a safe path of
/// one component.
pub proof fn names_in_any_script_are_safe(name: Seq<char>)
    requires
        name.len() > 0,
        encode_utf8(name).len() <= 255,
        forall|place: int| 0 <= place < name.len() ==> (#[trigger] name[place]) as int >= 0xa0,
    ensures
        safe_path(name),
        crate::text::pieces(name, '/') == seq![name],
{
    assert forall|place: int| 0 <= place < name.len() implies !forbidden(#[trigger] name[place]) by {
        only_controls_and_seven_signs_are_forbidden(name[place]);
    }
    assert(name.last() == name[name.len() - 1]);
    crate::text::first_index_is_first(name, '.');
    assert(name.take(name.len() as int) =~= name);
    assert(trimmed(name) == name);
    assert(crate::text::raised(name) =~= name) by {
        assert forall|place: int| 0 <= place < name.len() implies crate::text::raised(name)[place]
            == name[place] by {
            crate::text::case_changes_letters_alone(name[place]);
        }
    }
    reveal_strlit("CON");
    reveal_strlit("PRN");
    reveal_strlit("AUX");
    reveal_strlit("NUL");
    reveal_strlit("COM");
    reveal_strlit("LPT");
    reveal_strlit(".");
    reveal_strlit("..");
    assert(name[0] != 'C' && name[0] != 'P' && name[0] != 'A' && name[0] != 'N' && name[0] != 'L');
    assert("CON"@[0] == 'C' && "PRN"@[0] == 'P' && "AUX"@[0] == 'A' && "NUL"@[0] == 'N');
    if name.len() == 4 {
        assert(name.take(3)[0] == name[0]);
        assert("COM"@[0] == 'C' && "LPT"@[0] == 'L');
    }
    assert("."@[0] == '.' && ".."@[0] == '.');
    crate::text::pieces_lie_between_separators(name, Seq::empty(), '/');
}

/// Which names without a separator are safe: those of at most 255 bytes that
/// hold nothing forbidden and no backslash, end in neither a space nor a dot,
/// and are no device on Windows.
pub proof fn a_name_is_safe_unless_it_is_misleading(name: Seq<char>)
    requires
        !name.contains('/'),
    ensures
        safe_path(name) <==> {
            &&& 0 < encode_utf8(name).len() <= 255
            &&& name.len() > 0
            &&& name.last() != ' '
            &&& name.last() != '.'
            &&& !name.contains('\\')
            &&& forall|place: int|
                0 <= place < name.len() ==> !forbidden(#[trigger] name[place])
            &&& !device_name(device_stem(name))
        },
        safe_path(name) ==> crate::text::pieces(name, '/') == seq![name],
{
    crate::text::pieces_lie_between_separators(name, Seq::empty(), '/');
    let parts = crate::text::pieces(name, '/');
    assert(parts[0] == name);
    reveal_strlit(".");
    reveal_strlit("..");
    assert("."@.last() == '.' && ".."@.last() == '.');
    only_controls_and_seven_signs_are_forbidden('\0');
    if name.contains('\0') {
        let place = choose|place: int| 0 <= place < name.len() && name[place] == '\0';
        assert(forbidden(name[place]));
    }
    if name.len() > 0 {
        a_text_has_bytes(name);
    }
    if !unsafe_component(name) {
        assert forall|place: int| 0 <= place < name.len() implies !forbidden(
            #[trigger] name[place],
        ) by {}
    }
}

proof fn a_text_has_bytes(text: Seq<char>)
    requires
        text.len() > 0,
    ensures
        encode_utf8(text).len() > 0,
{
    if encode_utf8(text).len() == 0 {
        reveal_with_fuel(encode_utf8, 2);
    }
}

/// A path is safe exactly when it has at most 4096 bytes and each of its
/// components is a safe path by itself.
pub proof fn a_path_is_as_safe_as_its_components(text: Seq<char>)
    requires
        !text.contains('\\'),
        !text.contains('\0'),
        text.len() > 0,
    ensures
        safe_path(text) <==> encode_utf8(text).len() <= 4096 && forall|place: int|
            0 <= place < crate::text::pieces(text, '/').len() ==> safe_path(
                #[trigger] crate::text::pieces(text, '/')[place],
            ),
{
    let parts = crate::text::pieces(text, '/');
    crate::text::pieces_assemble_to_the_text(text, '/');
    assert forall|place: int| 0 <= place < parts.len() implies (safe_path(#[trigger] parts[place])
        <==> !unsafe_component(parts[place])) by {
        let part = parts[place];
        a_name_is_safe_unless_it_is_misleading(part);
        crate::text::pieces_lie_between_separators(part, Seq::empty(), '/');
        assert(crate::text::pieces(part, '/')[0] == part);
        if part.contains('\\') {
            pieces_hold_what_the_text_holds(text, place, '\\');
        }
        if !unsafe_component(part) {
            a_text_has_bytes(part);
        }
    }
}

proof fn pieces_hold_what_the_text_holds(text: Seq<char>, place: int, character: char)
    requires
        0 <= place < crate::text::pieces(text, '/').len(),
        crate::text::pieces(text, '/')[place].contains(character),
    ensures
        text.contains(character),
    decreases text.len(),
{
    let parts = crate::text::pieces(text, '/');
    if text.len() > 0 {
        let front = text.drop_last();
        let before = crate::text::pieces(front, '/');
        crate::text::pieces_assemble_to_the_text(front, '/');
        let part = parts[place];
        let spot = choose|spot: int| 0 <= spot < part.len() && part[spot] == character;
        if text.last() == '/' {
            if place < before.len() {
                assert(before[place] == part);
                pieces_hold_what_the_text_holds(front, place, character);
                let found = choose|found: int| 0 <= found < front.len() && front[found] == character;
                assert(text[found] == character);
            }
        } else if place < before.len() - 1 {
            assert(before[place] == part);
            pieces_hold_what_the_text_holds(front, place, character);
            let found = choose|found: int| 0 <= found < front.len() && front[found] == character;
            assert(text[found] == character);
        } else {
            assert(part == before.last().push(text.last()));
            if spot == part.len() - 1 {
                assert(text[text.len() - 1] == character);
            } else {
                assert(before.last()[spot] == character);
                assert(before[before.len() - 1].contains(character));
                pieces_hold_what_the_text_holds(front, before.len() - 1, character);
                let found = choose|found: int|
                    0 <= found < front.len() && front[found] == character;
                assert(text[found] == character);
            }
        }
    }
}

/// A name is a Windows device by what stands before its first dot, in whichever
/// case it is written: the four devices, and the serial and parallel ports one
/// to nine.
pub proof fn devices_are_known_in_any_case_and_with_any_extension(
    stem: Seq<char>,
    other: Seq<char>,
    rest: Seq<char>,
)
    requires
        stem.len() > 0,
        !stem.contains('.'),
        stem.last() != ' ',
    ensures
        device_stem(stem) == crate::text::raised(stem),
        device_stem(stem.push('.') + rest) == crate::text::raised(stem),
        crate::text::raised(stem) == "CON"@ || crate::text::raised(stem) == "PRN"@
            || crate::text::raised(stem) == "AUX"@ || crate::text::raised(stem) == "NUL"@
            ==> device_name(device_stem(stem.push('.') + rest)) && device_name(device_stem(stem)),
        forall|port: char|
            '1' <= port <= '9' && (crate::text::raised(stem) == "COM"@.push(port)
                || crate::text::raised(stem) == "LPT"@.push(port)) ==> #[trigger] is_port(port)
                && device_name(device_stem(stem)),
        device_name(device_stem(stem)) ==> {
            let raised = crate::text::raised(stem);
            ||| raised == "CON"@ || raised == "PRN"@ || raised == "AUX"@ || raised == "NUL"@
            ||| raised.len() == 4 && ("COM"@.is_prefix_of(raised) || "LPT"@.is_prefix_of(raised))
                && is_port(raised[3])
        },
{
    crate::text::first_index_is_first(stem, '.');
    let whole = stem.push('.') + rest;
    crate::text::first_index_is_first(whole, '.');
    assert(stem.take(stem.len() as int) =~= stem);
    if crate::text::first_index(stem, '.') < stem.len() {
        assert(stem.contains(stem[crate::text::first_index(stem, '.')]));
    }
    assert(whole[stem.len() as int] == '.');
    if crate::text::first_index(whole, '.') < stem.len() {
        assert(stem[crate::text::first_index(whole, '.')] == '.');
        assert(stem.contains('.'));
    }
    assert(whole.take(stem.len() as int) =~= stem);
    assert(stem.last() == stem[stem.len() - 1]);
    assert(stem.contains(stem.last()));
    assert(trimmed(stem) == stem);
    reveal_strlit("CON");
    reveal_strlit("PRN");
    reveal_strlit("AUX");
    reveal_strlit("NUL");
    reveal_strlit("COM");
    reveal_strlit("LPT");
    assert forall|port: char|
        '1' <= port <= '9' && (crate::text::raised(stem) == "COM"@.push(port)
            || crate::text::raised(stem) == "LPT"@.push(port)) implies #[trigger] is_port(port)
        && device_name(device_stem(stem)) by {
        let raised = crate::text::raised(stem);
        assert("COM"@.push(port).take(3) =~= "COM"@);
        assert("LPT"@.push(port).take(3) =~= "LPT"@);
        assert(raised[3] == port);
    }
    let raised = crate::text::raised(stem);
    if raised.len() == 4 {
        assert(raised.take(3) =~= raised.subrange(0, 3));
    }
}

/// Whether a character counts a port.
pub open spec fn is_port(character: char) -> bool {
    '1' <= character <= '9'
}

/// A path ends in a name: behind a separator the name alone counts, a separator
/// at the end counts for nothing, and a name is never empty, holds no separator
/// and means no directory.
pub proof fn a_path_ends_in_a_name(directory: Seq<char>, name: Seq<char>)
    requires
        name.len() > 0,
        !name.contains('/'),
        name != "."@,
        name != ".."@,
    ensures
        file_name_of(name) == Some(name),
        file_name_of(directory.push('/') + name) == Some(name),
        file_name_of((directory.push('/') + name).push('/')) == Some(name),
{
    reveal_strlit(".");
    reveal_strlit("..");
    let path = directory.push('/') + name;
    let dash = directory.len() as int;
    assert(path[dash] == '/');
    assert(path.last() == name.last());
    assert(name[name.len() - 1] == name.last());
    assert(name.contains(name.last()));
    crate::text::last_index_is_last(name, '/');
    crate::text::last_index_is_last(path, '/');
    assert(path.contains('/'));
    if let Some(place) = crate::text::last_index(path, '/') {
        if place > dash {
            assert(name[place - dash - 1] == '/');
            assert(name.contains('/'));
        }
        if place < dash {
            assert(path[dash] != '/');
        }
        assert(path.skip(place + 1) =~= name);
    }
    if name.last() == '.' {
        if name.len() == 1 {
            assert(name =~= "."@);
        } else {
            assert(name.contains(name[name.len() - 2]));
            assert(path[path.len() - 2] == name[name.len() - 2]);
        }
    }
    assert(path.push('/').drop_last() =~= path);
}

/// What is taken for a name never holds a separator and is never a directory.
pub proof fn a_found_name_is_one_component(path: Seq<char>)
    ensures
        file_name_of(path) matches Some(name) ==> name.len() > 0 && !name.contains('/') && name
            != "."@ && name != ".."@,
    decreases path.len(),
{
    if path.len() > 0 && path.last() == '/' {
        a_found_name_is_one_component(path.drop_last());
    } else if path.len() > 1 && path.last() == '.' && path[path.len() - 2] == '/' {
        a_found_name_is_one_component(path.take(path.len() - 2));
    } else {
        crate::text::last_index_is_last(path, '/');
        if let Some(place) = crate::text::last_index(path, '/') {
            let name = path.skip(place + 1);
            assert forall|spot: int| 0 <= spot < name.len() implies name[spot] != '/' by {
                assert(path[spot + place + 1] != '/');
            }
        }
    }
}

/// The extension is what stands behind the last dot, and the stem what stands
/// before it; a name without a dot behind its first character has no extension.
pub proof fn a_name_splits_at_its_last_dot(stem: Seq<char>, extension: Seq<char>)
    requires
        stem.len() > 0,
        !extension.contains('.'),
    ensures
        extension_of(stem.push('.') + extension) == Some(extension),
        stem_of(stem.push('.') + extension) == stem,
        !stem.contains('.') ==> extension_of(stem) is None && stem_of(stem) == stem,
        extension_of(seq!['.'] + extension) is None,
        stem_of(seq!['.'] + extension) == seq!['.'] + extension,
{
    let name = stem.push('.') + extension;
    let dot = stem.len() as int;
    crate::text::last_index_is_last(name, '.');
    crate::text::last_index_is_last(stem, '.');
    let hidden = seq!['.'] + extension;
    crate::text::last_index_is_last(hidden, '.');
    assert(name[dot] == '.');
    assert(name.contains('.'));
    if let Some(place) = crate::text::last_index(name, '.') {
        if place > dot {
            assert(extension[place - dot - 1] == '.');
            assert(extension.contains('.'));
        }
        if place < dot {
            assert(name[dot] != '.');
        }
        assert(name.skip(place + 1) =~= extension);
        assert(name.take(place) =~= stem);
    }
    if let Some(place) = crate::text::last_index(hidden, '.') {
        if place > 0 {
            assert(extension[place - 1] == '.');
            assert(extension.contains('.'));
        }
    }
}

/// The extension of a path is that of its last name, in lower case: however it
/// is written, the file is of the same kind and media type.
pub proof fn extensions_count_in_any_case(
    directory: Seq<char>,
    stem: Seq<char>,
    extension: Seq<char>,
)
    requires
        stem.len() > 0,
        extension.len() > 0,
        !extension.contains('.'),
        !extension.contains('/'),
        !stem.contains('/'),
    ensures
        path_extension(directory.push('/') + (stem.push('.') + extension)) == crate::text::lowered(
            extension,
        ),
        path_extension(stem.push('.') + extension) == crate::text::lowered(extension),
{
    reveal_strlit(".");
    reveal_strlit("..");
    let name = stem.push('.') + extension;
    assert(name[name.len() - 1] == extension[extension.len() - 1]);
    assert(extension.contains(extension[extension.len() - 1]));
    assert(name != "."@);
    if name =~= ".."@ {
        assert(name[1] == '.');
    }
    assert forall|place: int| 0 <= place < name.len() implies name[place] != '/' by {
        if place < stem.len() {
            assert(stem.contains(stem[place]));
        } else if place > stem.len() {
            assert(extension.contains(extension[place - stem.len() - 1]));
        }
    }
    a_path_ends_in_a_name(directory, name);
    a_name_splits_at_its_last_dot(stem, extension);
}

/// What extensions announce: eight kinds of image, PDF, seven kinds of archive,
/// and plain files otherwise.
pub proof fn extensions_announce_kinds(extension: Seq<char>)
    ensures
        kind_of_extension(extension) == FileKind::Image <==> seq![
            "png"@,
            "jpg"@,
            "jpeg"@,
            "gif"@,
            "webp"@,
            "bmp"@,
            "heic"@,
            "avif"@,
        ].contains(extension),
        kind_of_extension(extension) == FileKind::Pdf <==> extension == "pdf"@,
        kind_of_extension(extension) == FileKind::Archive <==> seq![
            "zip"@,
            "7z"@,
            "rar"@,
            "tar"@,
            "gz"@,
            "bz2"@,
            "xz"@,
        ].contains(extension),
{
    let images = seq!["png"@, "jpg"@, "jpeg"@, "gif"@, "webp"@, "bmp"@, "heic"@, "avif"@];
    let archives = seq!["zip"@, "7z"@, "rar"@, "tar"@, "gz"@, "bz2"@, "xz"@];
    reveal_strlit("png");
    reveal_strlit("jpg");
    reveal_strlit("jpeg");
    reveal_strlit("gif");
    reveal_strlit("webp");
    reveal_strlit("bmp");
    reveal_strlit("heic");
    reveal_strlit("avif");
    reveal_strlit("pdf");
    reveal_strlit("zip");
    reveal_strlit("7z");
    reveal_strlit("rar");
    reveal_strlit("tar");
    reveal_strlit("gz");
    reveal_strlit("bz2");
    reveal_strlit("xz");
    assert(images[0] == "png"@ && images[1] == "jpg"@ && images[2] == "jpeg"@ && images[3]
        == "gif"@ && images[4] == "webp"@ && images[5] == "bmp"@ && images[6] == "heic"@
        && images[7] == "avif"@);
    assert(archives[0] == "zip"@ && archives[1] == "7z"@ && archives[2] == "rar"@ && archives[3]
        == "tar"@ && archives[4] == "gz"@ && archives[5] == "bz2"@ && archives[6] == "xz"@);
    assert("pdf"@[0] == 'p' && "png"@[1] == 'n' && "pdf"@[1] == 'd' && "zip"@[0] == 'z' && "7z"@[0]
        == '7' && "rar"@[0] == 'r' && "tar"@[0] == 't' && "gz"@[0] == 'g' && "bz2"@[0] == 'b'
        && "xz"@[0] == 'x' && "jpg"@[0] == 'j' && "jpeg"@[0] == 'j' && "gif"@[0] == 'g' && "gif"@[1]
        == 'i' && "gz"@[1] == 'z' && "webp"@[0] == 'w' && "bmp"@[0] == 'b' && "bmp"@[1] == 'm'
        && "bz2"@[1] == 'z' && "heic"@[0] == 'h' && "avif"@[0] == 'a');
}

/// The media type that an extension announces, each type by the extensions that
/// announce it; any other file is a stream of bytes.
pub proof fn extensions_announce_media_types(extension: Seq<char>)
    ensures
        extension == "png"@ ==> media_type_of_extension(extension) == "image/png"@,
        extension == "jpg"@ || extension == "jpeg"@ ==> media_type_of_extension(extension)
            == "image/jpeg"@,
        extension == "gif"@ ==> media_type_of_extension(extension) == "image/gif"@,
        extension == "webp"@ ==> media_type_of_extension(extension) == "image/webp"@,
        extension == "pdf"@ ==> media_type_of_extension(extension) == "application/pdf"@,
        extension == "zip"@ ==> media_type_of_extension(extension) == "application/zip"@,
        extension == "txt"@ || extension == "md"@ ==> media_type_of_extension(extension)
            == "text/plain"@,
        extension == "mp4"@ ==> media_type_of_extension(extension) == "video/mp4"@,
        extension == "mov"@ ==> media_type_of_extension(extension) == "video/quicktime"@,
        !seq![
            "png"@,
            "jpg"@,
            "jpeg"@,
            "gif"@,
            "webp"@,
            "pdf"@,
            "zip"@,
            "txt"@,
            "md"@,
            "mp4"@,
            "mov"@,
        ].contains(extension) ==> media_type_of_extension(extension)
            == "application/octet-stream"@,
{
    reveal_strlit("png");
    reveal_strlit("jpg");
    reveal_strlit("jpeg");
    reveal_strlit("gif");
    reveal_strlit("webp");
    reveal_strlit("pdf");
    reveal_strlit("zip");
    reveal_strlit("txt");
    reveal_strlit("md");
    reveal_strlit("mp4");
    reveal_strlit("mov");
    let known = seq![
        "png"@,
        "jpg"@,
        "jpeg"@,
        "gif"@,
        "webp"@,
        "pdf"@,
        "zip"@,
        "txt"@,
        "md"@,
        "mp4"@,
        "mov"@,
    ];
    assert(known[0] == "png"@ && known[1] == "jpg"@ && known[2] == "jpeg"@ && known[3] == "gif"@
        && known[4] == "webp"@ && known[5] == "pdf"@ && known[6] == "zip"@ && known[7] == "txt"@
        && known[8] == "md"@ && known[9] == "mp4"@ && known[10] == "mov"@);
    assert("png"@[0] == 'p' && "png"@[1] == 'n' && "pdf"@[0] == 'p' && "pdf"@[1] == 'd' && "jpg"@[0]
        == 'j' && "jpeg"@[0] == 'j' && "gif"@[0] == 'g' && "webp"@[0] == 'w' && "zip"@[0] == 'z'
        && "txt"@[0] == 't' && "md"@[0] == 'm' && "md"@[1] == 'd' && "mp4"@[0] == 'm' && "mp4"@[1]
        == 'p' && "mov"@[0] == 'm' && "mov"@[1] == 'o');
}

/// Folding the case of a text folds each of its characters, in their order; so a
/// text of characters that are in lower case stays as it is.
pub proof fn folding_goes_character_by_character(one: Seq<char>, other: Seq<char>)
    ensures
        folded(one + other) == folded(one) + folded(other),
        forall|character: char| folded(#[trigger] seq![character]) == lowercase(character),
        (forall|place: int|
            0 <= place < one.len() ==> lowercase(#[trigger] one[place]) == seq![one[place]])
            ==> folded(one) == one,
    decreases one.len() + other.len(),
{
    assert forall|character: char| folded(#[trigger] seq![character]) == lowercase(character) by {
        assert(seq![character].drop_last() =~= Seq::empty());
        assert(folded(Seq::<char>::empty()) =~= Seq::empty());
        assert(Seq::<char>::empty() + lowercase(character) =~= lowercase(character));
    }
    if other.len() == 0 {
        assert(one + other =~= one);
        assert(folded(one) + folded(other) =~= folded(one));
    } else {
        let front = other.drop_last();
        folding_goes_character_by_character(one, front);
        assert((one + other).drop_last() =~= one + front);
        assert((one + other).last() == other.last());
        assert(folded(one + other) =~= folded(one) + folded(other));
    }
    if forall|place: int|
        0 <= place < one.len() ==> lowercase(#[trigger] one[place]) == seq![one[place]] {
        if one.len() > 0 {
            let front = one.drop_last();
            assert forall|place: int| 0 <= place < front.len() implies lowercase(
                #[trigger] front[place],
            ) == seq![front[place]] by {
                assert(one[place] == front[place]);
            }
            folding_goes_character_by_character(front, Seq::empty());
            assert(lowercase(one[one.len() - 1]) == seq![one[one.len() - 1]]);
            assert(folded(one) =~= one);
        } else {
            assert(folded(one) =~= one);
        }
    }
}

/// Two paths collide where their compositions are alike but for the case of
/// their characters; and paths that are composed and in lower case collide only
/// where they are the same.
pub proof fn paths_collide_by_composition_and_case(one: Seq<char>, other: Seq<char>)
    ensures
        folded(composed(one)) == folded(composed(other)) <==> path_key(one) == path_key(other),
        composed(one) == composed(other) ==> path_key(one) == path_key(other),
        (composed(one) == one && forall|place: int|
            0 <= place < one.len() ==> lowercase(#[trigger] one[place]) == seq![one[place]])
            ==> path_key(one) == one,
{
    folding_goes_character_by_character(one, Seq::empty());
}

/// A path is refused as no path where it is empty, too long or holds a character
/// that none may hold, and otherwise for one of its components.
pub proof fn a_refusal_tells_the_path_from_its_components(text: Seq<char>)
    requires
        !safe_path(text),
    ensures
        path_refusal(text) is Invalid,
        text.len() == 0 || encode_utf8(text).len() > 4096 || text.contains('\0') || text.contains(
            '\\',
        ) ==> path_refusal(text) == ErrorModel::Invalid("unsafe relative path"@),
        text.len() > 0 && encode_utf8(text).len() <= 4096 && !text.contains('\0')
            && !text.contains('\\') ==> path_refusal(text) == ErrorModel::Invalid(
            "unsafe path component"@,
        ) && exists|place: int|
            0 <= place < crate::text::pieces(text, '/').len() && unsafe_component(
                #[trigger] crate::text::pieces(text, '/')[place],
            ),
{
}

} // verus!
