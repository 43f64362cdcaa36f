//! The reference media of a draft as the window lists them.

use crate::domain::{
    DraftMedia, MediaKind, MediaRole, MediaSource, ProviderId, VideoRequest, FAL_PROVIDER_ID,
    OPENROUTER_PROVIDER_ID,
};
use crate::paths::{file_name, lower_extension};
use crate::text::{
    chars_of, concat, concat3, decimal, replace_text, same_text, starts_with_text, text_of,
    trim_text,
};
use vstd::prelude::*;

verus! {

/// The provider at a place of the list of providers.
pub open spec fn provider_at(index: u32) -> Seq<char> {
    if index == 1 {
        FAL_PROVIDER_ID@
    } else {
        OPENROUTER_PROVIDER_ID@
    }
}

/// The provider at a place of the list of providers.
pub fn provider_id_for_index(index: u32) -> (id: ProviderId)
    ensures
        id@ == provider_at(index),
{
    if index == 1 {
        ProviderId::fal()
    } else {
        ProviderId::openrouter()
    }
}

/// The place of a provider in the list of providers.
pub open spec fn place_of_provider(name: Seq<char>) -> u32 {
    if name == FAL_PROVIDER_ID@ {
        1
    } else {
        0
    }
}

/// The place of a provider in the list of providers.
pub fn index_for_provider(provider_id: &ProviderId) -> (index: u32)
    ensures
        index == place_of_provider(provider_id@),
{
    if provider_id.is(FAL_PROVIDER_ID) {
        1
    } else {
        0
    }
}

/// Each of the two providers stands at its own place.
pub proof fn providers_keep_their_place(name: Seq<char>)
    requires
        name == OPENROUTER_PROVIDER_ID@ || name == FAL_PROVIDER_ID@,
    ensures
        provider_at(place_of_provider(name)) == name,
{
}

/// What a provider is called in the window.
pub open spec fn provider_title(name: Seq<char>) -> Seq<char> {
    if name == "fal"@ {
        "fal.ai"@
    } else if name == "openrouter"@ {
        "OpenRouter"@
    } else {
        "Video provider"@
    }
}

/// What a provider is called in the window.
pub fn provider_name(provider_id: &ProviderId) -> (s: &'static str)
    ensures
        s@ == provider_title(provider_id@),
{
    if provider_id.is("fal") {
        "fal.ai"
    } else if provider_id.is("openrouter") {
        "OpenRouter"
    } else {
        "Video provider"
    }
}

/// The kind of media at a place of the list of kinds, whose first place is no kind.
pub fn remote_kind_for_index(index: u32) -> (kind: Option<MediaKind>)
    ensures
        kind == match index {
            1u32 => Some(MediaKind::Image),
            2u32 => Some(MediaKind::Video),
            3u32 => Some(MediaKind::Audio),
            _ => None,
        },
{
    match index {
        1 => Some(MediaKind::Image),
        2 => Some(MediaKind::Video),
        3 => Some(MediaKind::Audio),
        _ => None,
    }
}

/// The role that a new item of a kind gets.
pub open spec fn default_role(kind: MediaKind) -> MediaRole {
    match kind {
        MediaKind::Image => MediaRole::Reference,
        MediaKind::Video => MediaRole::VideoInput,
        MediaKind::Audio => MediaRole::AudioInput,
    }
}

/// The role that a new item of a kind gets.
pub fn default_role_for_kind(kind: MediaKind) -> (role: MediaRole)
    ensures
        role == default_role(kind),
{
    match kind {
        MediaKind::Image => MediaRole::Reference,
        MediaKind::Video => MediaRole::VideoInput,
        MediaKind::Audio => MediaRole::AudioInput,
    }
}

/// The role at a place of the list of image roles.
pub open spec fn image_role(index: u32) -> MediaRole {
    match index {
        1u32 => MediaRole::StartFrame,
        2u32 => MediaRole::EndFrame,
        _ => MediaRole::Reference,
    }
}

/// The role at a place of the list of image roles.
pub fn role_for_index(index: u32) -> (role: MediaRole)
    ensures
        role == image_role(index),
{
    match index {
        1 => MediaRole::StartFrame,
        2 => MediaRole::EndFrame,
        _ => MediaRole::Reference,
    }
}

/// The role of an item of a kind; only an image has a choice.
pub open spec fn role_of(kind: MediaKind, image_index: u32) -> MediaRole {
    if kind == MediaKind::Image {
        image_role(image_index)
    } else {
        default_role(kind)
    }
}

/// The role of an item of a kind; only an image has a choice.
pub fn role_for_kind(kind: MediaKind, image_role_index: u32) -> (role: MediaRole)
    ensures
        role == role_of(kind, image_role_index),
{
    match kind {
        MediaKind::Image => role_for_index(image_role_index),
        MediaKind::Video | MediaKind::Audio => default_role_for_kind(kind),
    }
}

/// The place of a role in the list of image roles.
pub open spec fn place_of_role(role: MediaRole) -> u32 {
    match role {
        MediaRole::StartFrame => 1,
        MediaRole::EndFrame => 2,
        _ => 0,
    }
}

/// The place of a role in the list of image roles.
pub fn index_for_role(role: MediaRole) -> (index: u32)
    ensures
        index == place_of_role(role),
{
    match role {
        MediaRole::StartFrame => 1,
        MediaRole::EndFrame => 2,
        MediaRole::Reference | MediaRole::VideoInput | MediaRole::AudioInput => 0,
    }
}

/// Image roles come back from their places in the list.
pub proof fn image_roles_keep_their_place(role: MediaRole)
    requires
        role.kind() == MediaKind::Image,
    ensures
        image_role(place_of_role(role)) == role,
{
}

/// A role that is chosen for a kind of media is a role for that kind, and one for video or sound
/// does not depend on the choice.
pub proof fn chosen_roles_fit_their_kind(kind: MediaKind, image_index: u32)
    ensures
        role_of(kind, image_index).kind() == kind,
        kind != MediaKind::Image ==> role_of(kind, image_index) == default_role(kind),
{
}

/// What a role is called.
pub open spec fn role_title(role: MediaRole) -> Seq<char> {
    match role {
        MediaRole::Reference => "Reference"@,
        MediaRole::StartFrame => "Start frame"@,
        MediaRole::EndFrame => "End frame"@,
        MediaRole::VideoInput => "Video input"@,
        MediaRole::AudioInput => "Audio input"@,
    }
}

/// What a role is called.
pub fn media_role_label(role: MediaRole) -> (s: &'static str)
    ensures
        s@ == role_title(role),
{
    match role {
        MediaRole::Reference => "Reference",
        MediaRole::StartFrame => "Start frame",
        MediaRole::EndFrame => "End frame",
        MediaRole::VideoInput => "Video input",
        MediaRole::AudioInput => "Audio input",
    }
}

/// What one item of a kind is called.
pub open spec fn kind_title(kind: MediaKind) -> Seq<char> {
    match kind {
        MediaKind::Image => "Image"@,
        MediaKind::Video => "Video"@,
        MediaKind::Audio => "Audio"@,
    }
}

/// What one item of a kind is called.
pub fn media_kind_label(kind: MediaKind) -> (s: &'static str)
    ensures
        s@ == kind_title(kind),
{
    match kind {
        MediaKind::Image => "Image",
        MediaKind::Video => "Video",
        MediaKind::Audio => "Audio",
    }
}

/// What several items of a kind are called.
pub open spec fn kind_plural(kind: MediaKind) -> Seq<char> {
    match kind {
        MediaKind::Image => "images"@,
        MediaKind::Video => "videos"@,
        MediaKind::Audio => "audio clips"@,
    }
}

/// What several items of a kind are called.
pub fn media_kind_plural(kind: MediaKind) -> (s: &'static str)
    ensures
        s@ == kind_plural(kind),
{
    match kind {
        MediaKind::Image => "images",
        MediaKind::Video => "videos",
        MediaKind::Audio => "audio clips",
    }
}

/// The icon of a kind.
pub fn media_kind_icon(kind: MediaKind) -> (s: &'static str)
    ensures
        s@ == match kind {
            MediaKind::Image => "image-x-generic-symbolic"@,
            MediaKind::Video => "video-x-generic-symbolic"@,
            MediaKind::Audio => "audio-x-generic-symbolic"@,
        },
{
    match kind {
        MediaKind::Image => "image-x-generic-symbolic",
        MediaKind::Video => "video-x-generic-symbolic",
        MediaKind::Audio => "audio-x-generic-symbolic",
    }
}

/// What stands after the last `c`, or the whole text where there is none.
pub open spec fn after_last(s: Seq<char>, c: char) -> Seq<char>
    decreases s.len(),
{
    if s.len() == 0 {
        s
    } else if s.last() == c {
        Seq::empty()
    } else {
        after_last(s.drop_last(), c).push(s.last())
    }
}

proof fn after_last_from(s: Seq<char>, c: char, from: int)
    requires
        0 <= from <= s.len(),
        from > 0 ==> s[from - 1] == c,
        forall|k: int| from <= k < s.len() ==> s[k] != c,
    ensures
        after_last(s, c) == s.skip(from),
    decreases s.len(),
{
    if from == s.len() {
        assert(s.skip(from) =~= Seq::empty());
    } else {
        after_last_from(s.drop_last(), c, from);
        assert(s.drop_last().skip(from).push(s.last()) =~= s.skip(from));
    }
}

/// The part of a URL that names the file: what follows the last slash before the query.
pub open spec fn url_name(url: Seq<char>) -> Seq<char> {
    after_last(url.take(crate::text::before_char(url, '?') as int), '/')
}

/// What a media item is called.
pub open spec fn name_shown(source: MediaSource) -> Seq<char> {
    match source {
        MediaSource::LocalFile { path } => match crate::paths::name_of(path@) {
            Some(name) => name,
            None => "Reference media"@,
        },
        MediaSource::RemoteUrl { url } => if url_name(url@).len() == 0 {
            "Remote reference"@
        } else {
            url_name(url@)
        },
    }
}

/// What a media item is called: its file's name, or the last part of its URL.
pub fn media_name(source: &MediaSource) -> (s: String)
    ensures
        s@ == name_shown(*source),
{
    match source {
        MediaSource::LocalFile { path } => match file_name(path.as_str()) {
            Some(name) => name,
            None => "Reference media".to_owned(),
        },
        MediaSource::RemoteUrl { url } => {
            let chars = chars_of(url.as_str());
            let end = crate::text::char_from(&chars, 0, '?');
            assert(chars@.skip(0) =~= url@);
            let ghost head = url@.take(end as int);
            let mut start: usize = end;
            while start > 0 && chars[start - 1] != '/'
                invariant
                    start <= end <= chars@.len(),
                    head == chars@.take(end as int),
                    forall|k: int| start <= k < end ==> head[k] != '/',
                decreases start,
            {
                start = start - 1;
            }
            proof {
                after_last_from(head, '/', start as int);
                assert(head.skip(start as int) =~= url@.subrange(start as int, end as int));
            }
            if start == end {
                "Remote reference".to_owned()
            } else {
                text_of(&chars, start, end)
            }
        },
    }
}

/// The kind of media that a file's extension stands for.
pub open spec fn extension_kind(extension: Seq<char>) -> Option<MediaKind> {
    if extension == "png"@ || extension == "jpg"@ || extension == "jpeg"@ || extension == "webp"@
        || extension == "gif"@ || extension == "avif"@ || extension == "bmp"@ || extension
        == "tif"@ || extension == "tiff"@ {
        Some(MediaKind::Image)
    } else if extension == "mp4"@ || extension == "mov"@ {
        Some(MediaKind::Video)
    } else if extension == "mp3"@ || extension == "wav"@ {
        Some(MediaKind::Audio)
    } else {
        None
    }
}

/// The kind of media that a path's extension stands for, in any case.
pub open spec fn path_kind(path: Seq<char>) -> Option<MediaKind> {
    match crate::paths::extension_of(path) {
        Some(extension) => extension_kind(crate::text::lower_text(extension)),
        None => None,
    }
}

/// The kind of media that a path's extension stands for, in any case.
pub fn media_kind_for_extension(path: &str) -> (kind: Option<MediaKind>)
    ensures
        kind == path_kind(path@),
{
    let extension = match lower_extension(path) {
        Some(extension) => extension,
        None => {
            return None;
        },
    };
    let e = extension.as_str();
    if same_text(e, "png") || same_text(e, "jpg") || same_text(e, "jpeg") || same_text(e, "webp")
        || same_text(e, "gif") || same_text(e, "avif") || same_text(e, "bmp") || same_text(
        e,
        "tif",
    ) || same_text(e, "tiff") {
        Some(MediaKind::Image)
    } else if same_text(e, "mp4") || same_text(e, "mov") {
        Some(MediaKind::Video)
    } else if same_text(e, "mp3") || same_text(e, "wav") {
        Some(MediaKind::Audio)
    } else {
        None
    }
}

/// The kind of a local file, given whether its first bytes fit the kind of its extension.
pub fn classify_local_reference(path: &str, contents_fit: bool) -> (kind: Option<MediaKind>)
    ensures
        kind == (if contents_fit {
            path_kind(path@)
        } else {
            None
        }),
{
    if contents_fit {
        media_kind_for_extension(path)
    } else {
        None
    }
}

/// How many of the items are of a kind.
pub open spec fn count_of(items: Seq<DraftMedia>, kind: MediaKind) -> nat
    decreases items.len(),
{
    if items.len() == 0 {
        0
    } else {
        count_of(items.drop_last(), kind) + (if items.last().role.kind() == kind {
            1nat
        } else {
            0nat
        })
    }
}

/// How many of the items are of a kind.
pub fn count_items(items: &Vec<DraftMedia>, upto: usize, kind: MediaKind) -> (n: usize)
    requires
        upto <= items@.len(),
    ensures
        n == count_of(items@.take(upto as int), kind),
{
    let mut n: usize = 0;
    let mut i: usize = 0;
    while i < upto
        invariant
            i <= upto <= items@.len(),
            n == count_of(items@.take(i as int), kind),
            n <= i,
        decreases upto - i,
    {
        proof {
            assert(items@.take(i as int + 1).drop_last() =~= items@.take(i as int));
        }
        if items[i].role.kind() == kind {
            n = n + 1;
        }
        i = i + 1;
    }
    n
}

/// What the item at a place is called: its kind, and its number among the items of that kind.
pub open spec fn ordinal_says(items: Seq<DraftMedia>, target: int) -> Seq<char> {
    if target < items.len() {
        let kind = items[target].role.kind();
        kind_title(kind) + " "@ + crate::text::numeral(count_of(items.take(target + 1), kind))
    } else {
        "media item "@ + crate::text::numeral(
            if target + 1 > usize::MAX {
                target as nat
            } else {
                (target + 1) as nat
            },
        )
    }
}

/// What the item at a place is called: its kind, and its number among the items of that kind.
pub fn typed_media_ordinal(items: &Vec<DraftMedia>, target: usize) -> (s: String)
    ensures
        s@ == ordinal_says(items@, target as int),
{
    if target >= items.len() {
        let number: usize = target.saturating_add(1);
        let numeral = decimal(number as u64);
        return concat("media item ", numeral.as_str());
    }
    let kind = items[target].role.kind();
    let n: usize = count_items(items, target + 1, kind);
    let numeral = decimal(n as u64);
    concat3(media_kind_label(kind), " ", numeral.as_str())
}

/// The numbers within a kind rise by one: an item's number is one more than the number of items of
/// its kind before it, whatever other kinds stand in between.
pub proof fn kinds_are_numbered_apart(items: Seq<DraftMedia>, target: int, other: MediaKind)
    requires
        0 <= target < items.len(),
    ensures
        count_of(items.take(target + 1), items[target].role.kind()) == count_of(
            items.take(target),
            items[target].role.kind(),
        ) + 1,
        other != items[target].role.kind() ==> count_of(items.take(target + 1), other) == count_of(
            items.take(target),
            other,
        ),
{
    assert(items.take(target + 1).drop_last() =~= items.take(target));
}

/// Whether any of the items is a file of this machine.
pub open spec fn any_local(items: Seq<DraftMedia>) -> bool {
    exists|i: int| 0 <= i < items.len() && (#[trigger] items[i]).source is LocalFile
}

/// Whether any of the items is a file of this machine.
pub fn has_local(items: &Vec<DraftMedia>) -> (b: bool)
    ensures
        b == any_local(items@),
{
    let mut i: usize = 0;
    while i < items.len()
        invariant
            i <= items@.len(),
            forall|k: int| 0 <= k < i ==> !((#[trigger] items@[k]).source is LocalFile),
        decreases items@.len() - i,
    {
        if let MediaSource::LocalFile { .. } = items[i].source {
            return true;
        }
        i = i + 1;
    }
    false
}

/// One line of the list of media.
#[derive(Debug)]
pub struct MediaRow {
    pub name: String,
    pub ordinal: String,
    pub source: String,
    pub tooltip: String,
    pub preview_tooltip: String,
    pub can_preview: bool,
    /// Whether the provider takes no files of this machine.
    pub blocked: bool,
    /// The place of the role in the list of image roles, for an image.
    pub role_choice: Option<u32>,
    pub role: String,
    pub can_move_earlier: bool,
    pub can_move_later: bool,
    pub remove_tooltip: String,
}

/// The mathematical value of a line.
pub struct MediaRowView {
    pub name: Seq<char>,
    pub ordinal: Seq<char>,
    pub source: Seq<char>,
    pub tooltip: Seq<char>,
    pub preview_tooltip: Seq<char>,
    pub can_preview: bool,
    pub blocked: bool,
    pub role_choice: Option<u32>,
    pub role: Seq<char>,
    pub can_move_earlier: bool,
    pub can_move_later: bool,
    pub remove_tooltip: Seq<char>,
}

impl View for MediaRow {
    type V = MediaRowView;

    open spec fn view(&self) -> MediaRowView {
        MediaRowView {
            name: self.name@,
            ordinal: self.ordinal@,
            source: self.source@,
            tooltip: self.tooltip@,
            preview_tooltip: self.preview_tooltip@,
            can_preview: self.can_preview,
            blocked: self.blocked,
            role_choice: self.role_choice,
            role: self.role@,
            can_move_earlier: self.can_move_earlier,
            can_move_later: self.can_move_later,
            remove_tooltip: self.remove_tooltip@,
        }
    }
}

/// The path or the URL of a source.
pub open spec fn source_text(source: MediaSource) -> Seq<char> {
    match source {
        MediaSource::LocalFile { path } => path@,
        MediaSource::RemoteUrl { url } => url@,
    }
}

/// The line for the item at a place.
pub open spec fn row_says(items: Seq<DraftMedia>, i: int, provider: Seq<char>) -> MediaRowView {
    let item = items[i];
    let image = item.role.kind() == MediaKind::Image;
    MediaRowView {
        name: name_shown(item.source),
        ordinal: ordinal_says(items, i),
        source: source_text(item.source),
        tooltip: ordinal_says(items, i) + ": "@ + name_shown(item.source),
        preview_tooltip: if item.source is LocalFile {
            "Preview "@ + ordinal_says(items, i)
        } else {
            "Remote media is previewed by the provider"@
        },
        can_preview: item.source is LocalFile,
        blocked: provider == OPENROUTER_PROVIDER_ID@ && item.source is LocalFile,
        role_choice: if image {
            Some(place_of_role(item.role))
        } else {
            None
        },
        role: role_title(item.role),
        can_move_earlier: i > 0,
        can_move_later: i + 1 < items.len(),
        remove_tooltip: "Remove "@ + ordinal_says(items, i),
    }
}

fn media_row(items: &Vec<DraftMedia>, i: usize, provider: &ProviderId) -> (row: MediaRow)
    requires
        i < items@.len(),
    ensures
        row@ == row_says(items@, i as int, provider@),
{
    let role = items[i].role;
    let source = &items[i].source;
    let name = media_name(source);
    let ordinal = typed_media_ordinal(items, i);
    let tooltip = concat3(ordinal.as_str(), ": ", name.as_str());
    let remove_tooltip = concat("Remove ", ordinal.as_str());
    let (text, local) = match source {
        MediaSource::LocalFile { path } => (path.clone(), true),
        MediaSource::RemoteUrl { url } => (url.clone(), false),
    };
    let preview_tooltip = if local {
        concat("Preview ", ordinal.as_str())
    } else {
        "Remote media is previewed by the provider".to_owned()
    };
    MediaRow {
        name,
        ordinal,
        source: text,
        tooltip,
        preview_tooltip,
        can_preview: local,
        blocked: provider.is(OPENROUTER_PROVIDER_ID) && local,
        role_choice: if role.kind() == MediaKind::Image {
            Some(index_for_role(role))
        } else {
            None
        },
        role: media_role_label(role).to_owned(),
        can_move_earlier: i > 0,
        can_move_later: i < items.len() - 1,
        remove_tooltip,
    }
}

/// The lines of the list of media.
pub fn media_rows(items: &Vec<DraftMedia>, provider: &ProviderId) -> (rows: Vec<MediaRow>)
    ensures
        rows@.len() == items@.len(),
        forall|i: int|
            0 <= i < items@.len() ==> (#[trigger] rows@[i])@ == row_says(items@, i, provider@),
{
    let mut rows: Vec<MediaRow> = Vec::new();
    let mut i: usize = 0;
    while i < items.len()
        invariant
            i <= items@.len(),
            rows@.len() == i,
            forall|k: int|
                0 <= k < i ==> (#[trigger] rows@[k])@ == row_says(items@, k, provider@),
        decreases items@.len() - i,
    {
        rows.push(media_row(items, i, provider));
        i = i + 1;
    }
    rows
}

/// The list with the items at `i` and `i + 1` in each other's place.
pub open spec fn exchanged(items: Seq<DraftMedia>, i: int) -> Seq<DraftMedia> {
    items.update(i, items[i + 1]).update(i + 1, items[i])
}

/// Moves the item at a place one place back, where it has one before it; says whether it did.
pub fn move_earlier(items: &mut Vec<DraftMedia>, index: usize) -> (moved: bool)
    ensures
        moved == (0 < index < old(items)@.len()),
        final(items)@ == (if moved {
            exchanged(old(items)@, index - 1)
        } else {
            old(items)@
        }),
{
    if index > 0 && index < items.len() {
        let item = items.remove(index);
        items.insert(index - 1, item);
        assert(items@ =~= exchanged(old(items)@, index - 1));
        true
    } else {
        false
    }
}

/// Moves the item at a place one place on, where it has one after it; says whether it did.
pub fn move_later(items: &mut Vec<DraftMedia>, index: usize) -> (moved: bool)
    ensures
        moved == (index + 1 < old(items)@.len()),
        final(items)@ == (if moved {
            exchanged(old(items)@, index as int)
        } else {
            old(items)@
        }),
{
    let length: usize = items.len();
    if length > 0 && index < length - 1 {
        let item = items.remove(index);
        items.insert(index + 1, item);
        assert(items@ =~= exchanged(old(items)@, index as int));
        true
    } else {
        false
    }
}

/// Moving an item on and then back leaves the list as it was.
pub proof fn moving_back_restores(items: Seq<DraftMedia>, i: int)
    requires
        0 <= i,
        i + 1 < items.len(),
    ensures
        exchanged(exchanged(items, i), i) == items,
{
    assert(exchanged(exchanged(items, i), i) =~= items);
}

/// Takes the item at a place off the list, where there is one; says whether it did.
pub fn remove_media(items: &mut Vec<DraftMedia>, index: usize) -> (removed: bool)
    ensures
        removed == (index < old(items)@.len()),
        final(items)@ == (if removed {
            old(items)@.remove(index as int)
        } else {
            old(items)@
        }),
{
    if index < items.len() {
        let _ = items.remove(index);
        true
    } else {
        false
    }
}

/// Gives the item at a place the image role at a place of the list of image roles.
pub fn choose_role(items: &mut Vec<DraftMedia>, index: usize, role_index: u32)
    ensures
        final(items)@ == (if index < old(items)@.len() {
            old(items)@.update(
                index as int,
                (DraftMedia {
                    source: old(items)@[index as int].source,
                    role: image_role(role_index),
                }),
            )
        } else {
            old(items)@
        }),
{
    if index < items.len() {
        let role = role_for_index(role_index);
        let item = items.remove(index);
        items.insert(index, DraftMedia { source: item.source, role });
    }
}

/// A count with the word for it.
pub open spec fn count_says(count: nat, singular: Seq<char>, plural: Seq<char>) -> Seq<char> {
    crate::text::numeral(count) + " "@ + (if count == 1 {
        singular
    } else {
        plural
    })
}

/// A count with the word for it.
pub fn count_label(count: usize, singular: &str, plural: &str) -> (s: String)
    ensures
        s@ == count_says(count as nat, singular@, plural@),
{
    let numeral = decimal(count as u64);
    concat3(
        numeral.as_str(),
        " ",
        if count == 1 {
            singular
        } else {
            plural
        },
    )
}

/// How many of the first `n` general references are of a kind.
pub open spec fn references_of(request: VideoRequest, kind: MediaKind, n: nat) -> nat
    decreases n,
{
    if n == 0 {
        0
    } else {
        references_of(request, kind, (n - 1) as nat) + (if request.input_references@[n - 1].kind
            == kind {
            1nat
        } else {
            0nat
        })
    }
}

/// How many media of a kind a request carries; frame images are images.
pub open spec fn carried(request: VideoRequest, kind: MediaKind) -> nat {
    references_of(request, kind, request.input_references@.len()) + (if kind == MediaKind::Image {
        request.frame_images@.len()
    } else {
        0
    })
}

fn count_references(request: &VideoRequest, upto: usize, kind: MediaKind) -> (n: usize)
    requires
        upto <= request.input_references@.len(),
    ensures
        n == references_of(*request, kind, upto as nat),
        n <= upto,
{
    let mut n: usize = 0;
    let mut i: usize = 0;
    while i < upto
        invariant
            i <= upto <= request.input_references@.len(),
            n == references_of(*request, kind, i as nat),
            n <= i,
        decreases upto - i,
    {
        if request.input_references[i].kind == kind {
            n = n + 1;
        }
        i = i + 1;
    }
    n
}

/// The counts of a request's media, kind by kind.
pub open spec fn counts_say(request: VideoRequest) -> Seq<char> {
    count_says(carried(request, MediaKind::Image), "image"@, "images"@) + ", "@ + count_says(
        carried(request, MediaKind::Video),
        "video"@,
        "videos"@,
    ) + ", "@ + count_says(carried(request, MediaKind::Audio), "audio clip"@, "audio clips"@)
}

/// The counts of a request's media, kind by kind. The images are counted in machine words.
pub fn typed_reference_counts(request: &VideoRequest) -> (s: String)
    requires
        request.frame_images@.len() + request.input_references@.len() <= usize::MAX,
    ensures
        s@ == counts_say(*request),
{
    let total: usize = request.input_references.len();
    let references: usize = count_references(request, total, MediaKind::Image);
    let images: usize = request.frame_images.len() + references;
    let videos: usize = count_references(request, total, MediaKind::Video);
    let sounds: usize = count_references(request, total, MediaKind::Audio);
    let first = count_label(images, "image", "images");
    let second = count_label(videos, "video", "videos");
    let third = count_label(sounds, "audio clip", "audio clips");
    let head = concat3(first.as_str(), ", ", second.as_str());
    concat3(head.as_str(), ", ", third.as_str())
}

/// What a general reference of a kind is for.
pub open spec fn reference_use(kind: MediaKind) -> Seq<char> {
    match kind {
        MediaKind::Image => "general reference"@,
        MediaKind::Video => "video input"@,
        MediaKind::Audio => "audio input"@,
    }
}

/// A line that tells one medium of a request: its kind and number, its use and its URL.
pub open spec fn detail_says(
    kind: MediaKind,
    number: nat,
    purpose: Seq<char>,
    url: Seq<char>,
) -> Seq<char> {
    kind_title(kind) + " "@ + crate::text::numeral(number) + (" ("@ + purpose + "): "@ + url)
}

fn detail_line(kind: MediaKind, number: usize, purpose: &str, url: &str) -> (s: String)
    ensures
        s@ == detail_says(kind, number as nat, purpose@, url@),
{
    let numeral = decimal(number as u64);
    let head = concat3(media_kind_label(kind), " ", numeral.as_str());
    let middle = concat3(" (", purpose, "): ");
    let tail = concat(middle.as_str(), url);
    concat(head.as_str(), tail.as_str())
}

/// The line for the frame image at a place.
pub open spec fn frame_line(request: VideoRequest, i: int) -> Seq<char> {
    let frame = request.frame_images@[i];
    detail_says(
        MediaKind::Image,
        (i + 1) as nat,
        crate::text::replaced(frame.frame_type.name(), "_"@, " "@),
        frame.url@,
    )
}

/// The line for the general reference at a place; the frame images are the first images.
pub open spec fn reference_line(request: VideoRequest, i: int) -> Seq<char> {
    let reference = request.input_references@[i];
    detail_says(
        reference.kind,
        references_of(request, reference.kind, (i + 1) as nat) + (if reference.kind
            == MediaKind::Image {
            request.frame_images@.len()
        } else {
            0
        }),
        reference_use(reference.kind),
        reference.url@,
    )
}

/// The lines that tell the media of a request: the frame images, then the general references.
pub fn typed_reference_details(request: &VideoRequest) -> (lines: Vec<String>)
    requires
        request.frame_images@.len() + request.input_references@.len() <= usize::MAX,
    ensures
        lines@.len() == request.frame_images@.len() + request.input_references@.len(),
        forall|i: int|
            0 <= i < request.frame_images@.len() ==> (#[trigger] lines@[i])@ == frame_line(
                *request,
                i,
            ),
        forall|i: int|
            request.frame_images@.len() <= i < lines@.len() ==> (#[trigger] lines@[i])@
                == reference_line(*request, i - request.frame_images@.len()),
{
    let mut lines: Vec<String> = Vec::new();
    let frames: usize = request.frame_images.len();
    let mut i: usize = 0;
    while i < frames
        invariant
            i <= frames == request.frame_images@.len(),
            lines@.len() == i,
            forall|k: int| 0 <= k < i ==> (#[trigger] lines@[k])@ == frame_line(*request, k),
        decreases frames - i,
    {
        proof {
            reveal_strlit("_");
        }
        let purpose = replace_text(request.frame_images[i].frame_type.as_str(), "_", " ");
        lines.push(
            detail_line(
                MediaKind::Image,
                i + 1,
                purpose.as_str(),
                request.frame_images[i].url.as_str(),
            ),
        );
        i = i + 1;
    }
    let mut j: usize = 0;
    while j < request.input_references.len()
        invariant
            j <= request.input_references@.len(),
            frames == request.frame_images@.len(),
            frames + request.input_references@.len() <= usize::MAX,
            lines@.len() == frames + j,
            forall|k: int| 0 <= k < frames ==> (#[trigger] lines@[k])@ == frame_line(*request, k),
            forall|k: int|
                frames <= k < lines@.len() ==> (#[trigger] lines@[k])@ == reference_line(
                    *request,
                    k - frames,
                ),
        decreases request.input_references@.len() - j,
    {
        let kind = request.input_references[j].kind;
        let references: usize = count_references(request, j + 1, kind);
        let number: usize = if kind == MediaKind::Image {
            frames + references
        } else {
            references
        };
        let purpose = match kind {
            MediaKind::Image => "general reference",
            MediaKind::Video => "video input",
            MediaKind::Audio => "audio input",
        };
        lines.push(
            detail_line(kind, number, purpose, request.input_references[j].url.as_str()),
        );
        j = j + 1;
    }
    lines
}

/// A text without the blanks around it, cut to a number of characters with a sign that it was cut.
pub open spec fn ellipsized(value: Seq<char>, max_chars: nat) -> Seq<char> {
    let text = crate::text::trimmed(value);
    if text.len() > max_chars {
        text.take(max_chars as int) + "…"@
    } else {
        text
    }
}

/// A text without the blanks around it, cut to a number of characters with a sign that it was cut.
pub fn ellipsize_text(value: &str, max_chars: usize) -> (s: String)
    ensures
        s@ == ellipsized(value@, max_chars as nat),
{
    let text = trim_text(value);
    let chars = chars_of(text);
    if chars.len() > max_chars {
        let head = text_of(&chars, 0, max_chars);
        assert(head@ =~= text@.take(max_chars as int));
        concat(head.as_str(), "…")
    } else {
        text.to_owned()
    }
}

/// The title of a job: the start of its prompt, unless that is blank.
pub open spec fn title_of(request: Option<VideoRequest>) -> Option<Seq<char>> {
    match request {
        Some(request) => if ellipsized(request.prompt@, 72).len() == 0 {
            None
        } else {
            Some(ellipsized(request.prompt@, 72))
        },
        None => None,
    }
}

/// The title of a job: the start of its prompt, unless that is blank.
pub fn job_title(request: &Option<VideoRequest>) -> (title: Option<String>)
    ensures
        crate::domain::opt_view(title) == title_of(*request),
{
    match request {
        Some(request) => {
            let title = ellipsize_text(request.prompt.as_str(), 72);
            if title.as_str().unicode_len() == 0 {
                None
            } else {
                Some(title)
            }
        },
        None => None,
    }
}

/// What is to be done with what was typed into the field for new media.
#[derive(Debug)]
pub enum EntryStep {
    /// Nothing is added, for this reason.
    Refuse(String),
    /// The URI of a file of this machine has to be resolved.
    Resolve { uri: String, kind: MediaKind },
    /// A remote URL has to be checked.
    Check { url: String, kind: MediaKind },
}

/// The mathematical value of a step.
pub enum EntryStepView {
    Refuse(Seq<char>),
    Resolve { uri: Seq<char>, kind: MediaKind },
    Check { url: Seq<char>, kind: MediaKind },
}

impl View for EntryStep {
    type V = EntryStepView;

    open spec fn view(&self) -> EntryStepView {
        match *self {
            EntryStep::Refuse(message) => EntryStepView::Refuse(message@),
            EntryStep::Resolve { uri, kind } => EntryStepView::Resolve { uri: uri@, kind },
            EntryStep::Check { url, kind } => EntryStepView::Check { url: url@, kind },
        }
    }
}

/// What is to be done with the text, given the chosen kind and provider.
pub open spec fn entry_step(value: Seq<char>, kind: Option<MediaKind>, provider: Seq<char>) -> EntryStepView {
    let text = crate::text::trimmed(value);
    if text.len() == 0 {
        EntryStepView::Refuse("Paste a public HTTPS URL or file URI first."@)
    } else {
        match kind {
            None => EntryStepView::Refuse(
                "Choose whether the URL contains an image, video, or audio reference."@,
            ),
            Some(kind) => if crate::text::occurs_at(text, "file:"@, 0) {
                if provider == OPENROUTER_PROVIDER_ID@ {
                    EntryStepView::Refuse(
                        "OpenRouter accepts reference media by public HTTPS URL only. The local file was not added."@,
                    )
                } else {
                    EntryStepView::Resolve { uri: text, kind }
                }
            } else {
                EntryStepView::Check { url: text, kind }
            },
        }
    }
}

/// Decides what is to be done with the text, given the chosen kind and provider.
pub fn read_entry(value: &str, kind: Option<MediaKind>, provider: &ProviderId) -> (step: EntryStep)
    ensures
        step@ == entry_step(value@, kind, provider@),
{
    let text = trim_text(value);
    if text.unicode_len() == 0 {
        return EntryStep::Refuse("Paste a public HTTPS URL or file URI first.".to_owned());
    }
    let kind = match kind {
        Some(kind) => kind,
        None => {
            return EntryStep::Refuse(
                "Choose whether the URL contains an image, video, or audio reference.".to_owned(),
            );
        },
    };
    if starts_with_text(text, "file:") {
        if provider.is(OPENROUTER_PROVIDER_ID) {
            EntryStep::Refuse(
                "OpenRouter accepts reference media by public HTTPS URL only. The local file was not added.".to_owned(),
            )
        } else {
            EntryStep::Resolve { uri: text.to_owned(), kind }
        }
    } else {
        EntryStep::Check { url: text.to_owned(), kind }
    }
}

/// Makes an item of a local file: `path` is where the URI leads, if it leads to a file, and
/// `actual` the kind of that file.
pub fn local_entry(
    kind: MediaKind,
    image_role_index: u32,
    path: Option<String>,
    actual: Option<MediaKind>,
) -> (r: Result<DraftMedia, String>)
    ensures
        match r {
            Ok(item) => path is Some && actual == Some(kind) && item == (DraftMedia {
                source: MediaSource::LocalFile { path: path->0 },
                role: role_of(kind, image_role_index),
            }),
            Err(message) => if path is None {
                message@ == "That file URI does not point to a local file."@
            } else if actual is None {
                message@
                    == "Reference media must be a valid image, MP4/MOV video, or MP3/WAV audio file."@
            } else {
                actual != Some(kind) && message@
                    == "The selected media type does not match that local file."@
            },
        },
{
    let path = match path {
        Some(path) => path,
        None => {
            return Err("That file URI does not point to a local file.".to_owned());
        },
    };
    match actual {
        Some(found) => if found == kind {
            Ok(
                DraftMedia {
                    source: MediaSource::LocalFile { path },
                    role: role_for_kind(kind, image_role_index),
                },
            )
        } else {
            Err("The selected media type does not match that local file.".to_owned())
        },
        None => Err(
            "Reference media must be a valid image, MP4/MOV video, or MP3/WAV audio file.".to_owned(),
        ),
    }
}

/// Makes an item of a remote URL, unless there is a complaint about the URL.
pub fn remote_entry(
    kind: MediaKind,
    image_role_index: u32,
    url: String,
    problem: Option<String>,
) -> (r: Result<DraftMedia, String>)
    ensures
        match r {
            Ok(item) => problem is None && item == (DraftMedia {
                source: MediaSource::RemoteUrl { url },
                role: role_of(kind, image_role_index),
            }),
            Err(message) => problem == Some(message),
        },
{
    match problem {
        None => Ok(
            DraftMedia {
                source: MediaSource::RemoteUrl { url },
                role: role_for_kind(kind, image_role_index),
            },
        ),
        Some(message) => Err(message),
    }
}

/// A file that was dropped on the list or picked for it, with its kind where it has one.
#[derive(Debug)]
pub struct FoundFile {
    pub path: String,
    pub kind: Option<MediaKind>,
}

/// The items for those of the files that have a kind, in order.
pub open spec fn found_items(files: Seq<FoundFile>) -> Seq<DraftMedia>
    decreases files.len(),
{
    if files.len() == 0 {
        Seq::empty()
    } else {
        let rest = found_items(files.drop_last());
        match files.last().kind {
            Some(kind) => rest.push(
                DraftMedia {
                    source: MediaSource::LocalFile { path: files.last().path },
                    role: default_role(kind),
                },
            ),
            None => rest,
        }
    }
}

/// Appends the files that have a kind to the list, and says how many it took.
pub fn add_files(items: &mut Vec<DraftMedia>, files: &Vec<FoundFile>) -> (added: usize)
    ensures
        final(items)@ == old(items)@ + found_items(files@),
        added == found_items(files@).len(),
{
    let ghost before = items@;
    let mut added: usize = 0;
    let mut i: usize = 0;
    proof {
        assert(before + found_items(files@.take(0)) =~= before);
    }
    while i < files.len()
        invariant
            i <= files@.len(),
            added <= i,
            added == found_items(files@.take(i as int)).len(),
            items@ == before + found_items(files@.take(i as int)),
        decreases files@.len() - i,
    {
        proof {
            assert(files@.take(i as int + 1).drop_last() =~= files@.take(i as int));
        }
        if let Some(kind) = files[i].kind {
            let item = DraftMedia {
                source: MediaSource::LocalFile { path: files[i].path.clone() },
                role: default_role_for_kind(kind),
            };
            items.push(item);
            added = added + 1;
            assert(items@ =~= before + found_items(files@.take(i as int + 1)));
        }
        i = i + 1;
    }
    assert(files@.take(i as int) =~= files@);
    added
}

/// What is said where files of this machine are chosen or dropped for a provider that takes none;
/// nothing where it takes them.
pub fn local_files_notice(provider_id: &ProviderId) -> (notice: Option<String>)
    ensures
        crate::domain::opt_view(notice) == (if provider_id@ == OPENROUTER_PROVIDER_ID@ {
            Some("OpenRouter accepts reference media by public HTTPS URL only."@)
        } else {
            None
        }),
{
    if provider_id.is(OPENROUTER_PROVIDER_ID) {
        Some("OpenRouter accepts reference media by public HTTPS URL only.".to_owned())
    } else {
        None
    }
}

/// What is said after a drop of files, given how many were taken and how many were not.
pub fn drop_notice(added: usize, rejected: usize) -> (notice: Option<String>)
    ensures
        crate::domain::opt_view(notice) == (if rejected == 0 {
            None
        } else if added > 0 {
            Some("Skipped "@ + crate::text::numeral(rejected as nat) + " unsupported file(s)."@)
        } else {
            Some("Reference media must be an image, MP4/MOV video, or MP3/WAV audio file."@)
        }),
{
    if rejected == 0 {
        None
    } else if added > 0 {
        let numeral = decimal(rejected as u64);
        Some(concat3("Skipped ", numeral.as_str(), " unsupported file(s)."))
    } else {
        Some(
            "Reference media must be an image, MP4/MOV video, or MP3/WAV audio file.".to_owned(),
        )
    }
}

/// What the composer says where media is added.
#[derive(Debug)]
pub struct MediaHints {
    /// Whether files of this machine can be added.
    pub files_allowed: bool,
    pub tooltip: String,
    pub title: String,
    pub hint: String,
}

/// What the composer says where media is added: OpenRouter takes URLs alone.
pub fn media_hints(provider_id: &ProviderId) -> (hints: MediaHints)
    ensures
        hints.files_allowed == (provider_id@ != OPENROUTER_PROVIDER_ID@),
        hints.tooltip@ == (if hints.files_allowed {
            "Choose local image, video, or audio reference files"@
        } else {
            "OpenRouter accepts public HTTPS reference URLs only"@
        }),
        hints.title@ == (if hints.files_allowed {
            "Drop reference media here"@
        } else {
            "OpenRouter uses URL references"@
        }),
        hints.hint@ == (if hints.files_allowed {
            "Files stay local until you press Review"@
        } else {
            "Choose a media type and add a public HTTPS URL below"@
        }),
{
    if provider_id.is(OPENROUTER_PROVIDER_ID) {
        MediaHints {
            files_allowed: false,
            tooltip: "OpenRouter accepts public HTTPS reference URLs only".to_owned(),
            title: "OpenRouter uses URL references".to_owned(),
            hint: "Choose a media type and add a public HTTPS URL below".to_owned(),
        }
    } else {
        MediaHints {
            files_allowed: true,
            tooltip: "Choose local image, video, or audio reference files".to_owned(),
            title: "Drop reference media here".to_owned(),
            hint: "Files stay local until you press Review".to_owned(),
        }
    }
}

/// The roles that are offered for a new item of a kind; there is a choice for an image alone.
pub open spec fn roles_offered(kind: Option<MediaKind>) -> Seq<Seq<char>> {
    match kind {
        Some(MediaKind::Image) => seq!["Reference"@, "Start frame"@, "End frame"@],
        Some(MediaKind::Video) => seq!["Video input"@],
        Some(MediaKind::Audio) => seq!["Audio input"@],
        None => seq!["Image role"@],
    }
}

/// The roles that are offered for a new item of a kind, and whether there is a choice.
pub fn remote_roles(kind: Option<MediaKind>) -> (r: (Vec<String>, bool))
    ensures
        crate::text::texts(r.0@) == roles_offered(kind),
        r.1 == (kind == Some(MediaKind::Image)),
{
    let mut labels: Vec<String> = Vec::new();
    let mut choice = false;
    match kind {
        Some(MediaKind::Image) => {
            labels.push("Reference".to_owned());
            labels.push("Start frame".to_owned());
            labels.push("End frame".to_owned());
            choice = true;
        },
        Some(MediaKind::Video) => {
            labels.push("Video input".to_owned());
        },
        Some(MediaKind::Audio) => {
            labels.push("Audio input".to_owned());
        },
        None => {
            labels.push("Image role".to_owned());
        },
    }
    assert(crate::text::texts(labels@) =~= roles_offered(kind));
    (labels, choice)
}

} // verus!
