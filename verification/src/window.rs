//! The decisions of the player window: how it takes a playlist edit from the
//! daemon into its own copy of the playlist and its selection, and the texts
//! of its rows, title and drag preview.

use crate::change::{PlaylistChangeKind, PlaylistChangeMessage, PlaylistError};
use crate::index_map::{playlist_index_map, spec_index_map, structural_error};
use crate::manager::{applied, PlaylistManager};
use crate::args::same_text;
use crate::text::{decimal, push_decimal, push_two_digits, two_digits};
use vstd::prelude::*;
use vstd::string::StringExecFns;
use vstd::string::StrSliceExecFns;

verus! {

/// What the window does after an edit from the daemon.
pub enum WindowStep {
    /// The edit does not fit the window's copy: ask the daemon for a fresh
    /// snapshot and leave the rest of the queued edits. `mapping` tells
    /// whether the new indices of a move could not be worked out, rather than
    /// the edit being refused.
    Refetch { error: PlaylistError, mapping: bool },
    /// The edit was applied to the window's copy.
    Applied {
        /// The rows to select again after a move, where the selected items
        /// went; `None` when the edit was not a move.
        selection: Option<Vec<usize>>,
        /// Whether the current item may have changed, so that the media shown
        /// is to be read again.
        reload_media: bool,
    },
}

/// The new indices of the `selected` rows under the index map `map`, in the
/// order of `selected`; rows that are gone or beyond the map are dropped.
pub open spec fn remapped(selected: Seq<usize>, map: Seq<Option<usize>>) -> Seq<usize>
    decreases selected.len(),
{
    if selected.len() == 0 {
        Seq::empty()
    } else {
        let rest = remapped(selected.drop_last(), map);
        let i = selected.last() as int;
        if i < map.len() && map[i] is Some {
            rest.push(map[i]->0)
        } else {
            rest
        }
    }
}

fn remap_selection(selected: &[usize], map: &Vec<Option<usize>>) -> (r: Vec<usize>)
    ensures
        r@ == remapped(selected@, map@),
{
    let mut r: Vec<usize> = Vec::new();
    let mut i: usize = 0;
    while i < selected.len()
        invariant
            i <= selected@.len(),
            r@ == remapped(selected@.take(i as int), map@),
        decreases selected@.len() - i,
    {
        assert(selected@.take(i + 1).drop_last() =~= selected@.take(i as int));
        let old_index = selected[i];
        if old_index < map.len() {
            if let Some(new_index) = map[old_index] {
                r.push(new_index);
            }
        }
        i = i + 1;
    }
    assert(selected@.take(selected@.len() as int) =~= selected@);
    r
}

/// Takes an edit from the daemon into the window's copy of the playlist.
///
/// Before a move the new index of every item is worked out, to select the
/// moved rows again where they went; a move that does not fit the copy
/// leaves it unchanged and asks for a snapshot, as does any edit that the
/// copy refuses. A current-index edit or a snapshot may change what is
/// playing, so the media shown is to be read again.
pub fn window_playlist_update(
    manager: &mut PlaylistManager,
    message: PlaylistChangeMessage,
    selected: &[usize],
) -> (r: WindowStep)
    requires
        old(manager).change_is_safe(message),
    ensures
        ({
            let own = old(manager).state_number_view();
            let entries = old(manager).entries_view();
            let current = old(manager).current_view();
            let len = entries.len() as usize;
            if message.change is Move && structural_error(message.change, len) is Some {
                &&& r == WindowStep::Refetch {
                    error: structural_error(message.change, len)->0,
                    mapping: true,
                }
                &&& *final(manager) == *old(manager)
            } else {
                match applied(own, entries, current, message) {
                    Err(e) => r == WindowStep::Refetch { error: e, mapping: false } && *final(manager)
                        == *old(manager),
                    Ok((s, e, c)) => {
                        &&& final(manager).state_number_view() == s
                        &&& final(manager).entries_view() == e
                        &&& final(manager).current_view() == c
                        &&& r matches WindowStep::Applied { selection, reload_media }
                        &&& reload_media == (message.change is ResetCurrent
                            || message.change is Rebuild)
                        &&& if message.change is Move {
                            selection matches Some(v) && v@ == remapped(
                                selected@,
                                spec_index_map(message.change, len),
                            )
                        } else {
                            selection is None
                        }
                    },
                }
            }
        }),
{
    let len = manager.get_playlist_ref().len();
    let is_move = matches!(message.change, PlaylistChangeKind::Move(_));
    let reload_media = matches!(message.change, PlaylistChangeKind::ResetCurrent(_))
        || matches!(message.change, PlaylistChangeKind::Rebuild(_, _));
    let map = if is_move {
        match playlist_index_map(&message.change, len) {
            Err(error) => {
                return WindowStep::Refetch { error, mapping: true };
            },
            Ok(map) => Some(map),
        }
    } else {
        None
    };
    match manager.apply_playlist_change(message) {
        Err(error) => WindowStep::Refetch { error, mapping: false },
        Ok(_) => {
            let selection = match map {
                Some(map) => Some(remap_selection(selected, &map)),
                None => None,
            };
            WindowStep::Applied { selection, reload_media }
        },
    }
}

/// The label of the playlist row at `index`: its number counted from 1,
/// padded to two digits, two spaces, then `text`.
pub open spec fn row_label_text(index: nat, text: Seq<char>) -> Seq<char> {
    two_digits(index + 1) + "  "@ + text
}

/// Builds the label of the playlist row at `index`.
pub fn row_label(index: usize, text: &str) -> (r: String)
    requires
        index < usize::MAX,
    ensures
        r@ == row_label_text(index as nat, text@),
{
    let mut s = String::new();
    push_two_digits(&mut s, (index + 1) as u64);
    s.append("  ");
    s.append(text);
    proof {
        reveal_strlit("  ");
    }
    assert(s@ =~= row_label_text(index as nat, text@));
    s
}

/// The title shown above the lyrics: `artist - title` (just the title
/// without an artist), then `  ·  album` when there is an album.
pub open spec fn media_title_text(title: Seq<char>, artist: Seq<char>, album: Seq<char>) -> Seq<
    char,
> {
    let head = if artist.len() == 0 {
        title
    } else {
        artist + " - "@ + title
    };
    if album.len() == 0 {
        head
    } else {
        head + "  ·  "@ + album
    }
}

/// Builds the title shown above the lyrics.
pub fn media_title(title: &str, artist: &str, album: &str) -> (r: String)
    ensures
        r@ == media_title_text(title@, artist@, album@),
{
    let mut s = String::new();
    if artist.unicode_len() != 0 {
        s.append(artist);
        s.append(" - ");
    }
    s.append(title);
    if album.unicode_len() != 0 {
        s.append("  ·  ");
        s.append(album);
    }
    assert(s@ =~= media_title_text(title@, artist@, album@));
    s
}

/// The non-empty `fields`, in order, with ` · ` between them.
pub open spec fn joined_fields(fields: Seq<Seq<char>>) -> Seq<char>
    decreases fields.len(),
{
    if fields.len() == 0 {
        Seq::empty()
    } else {
        let rest = joined_fields(fields.drop_last());
        let f = fields.last();
        if f.len() == 0 {
            rest
        } else if rest.len() == 0 {
            f
        } else {
            rest + " · "@ + f
        }
    }
}

/// The row text of a track from its tags: album, artist and title, the
/// empty ones left out, the title replaced by the file name when empty.
pub open spec fn tags_text_of(
    title: Seq<char>,
    artist: Seq<char>,
    album: Seq<char>,
    file_name: Seq<char>,
) -> Seq<char> {
    joined_fields(
        seq![
            album,
            artist,
            if title.len() == 0 {
                file_name
            } else {
                title
            },
        ],
    )
}

fn push_field(s: &mut String, field: &str)
    ensures
        final(s)@ == if field@.len() == 0 {
            old(s)@
        } else if old(s)@.len() == 0 {
            field@
        } else {
            old(s)@ + " · "@ + field@
        },
{
    if field.unicode_len() != 0 {
        if s.unicode_len() != 0 {
            s.append(" · ");
        }
        s.append(field);
    }
}

/// Builds the row text of a track from its tags.
pub fn tags_text(title: &str, artist: &str, album: &str, file_name: &str) -> (r: String)
    ensures
        r@ == tags_text_of(title@, artist@, album@, file_name@),
{
    let ghost last = if title@.len() == 0 {
        file_name@
    } else {
        title@
    };
    let ghost fields = seq![album@, artist@, last];
    let mut s = String::new();
    push_field(&mut s, album);
    assert(fields.take(1).drop_last() =~= Seq::<Seq<char>>::empty());
    assert(joined_fields(Seq::<Seq<char>>::empty()) == Seq::<char>::empty());
    assert(fields.take(1).last() == album@);
    assert(s@ == joined_fields(fields.take(1)));
    push_field(&mut s, artist);
    assert(fields.take(2).drop_last() =~= fields.take(1));
    assert(fields.take(2).last() == artist@);
    assert(s@ == joined_fields(fields.take(2)));
    if title.unicode_len() == 0 {
        push_field(&mut s, file_name);
    } else {
        push_field(&mut s, title);
    }
    assert(fields.drop_last() =~= fields.take(2));
    assert(s@ == joined_fields(fields));
    s
}

/// The style the row texts switch to from `style`: file names after any
/// other style, full paths after file names.
pub open spec fn next_style_text(style: Seq<char>) -> Seq<char> {
    if style == "name"@ {
        "path"@
    } else {
        "name"@
    }
}

/// The style the row texts switch to when the style button is pressed.
pub fn next_display_style(style: &str) -> (r: String)
    ensures
        r@ == next_style_text(style@),
{
    proof {
        reveal_strlit("name");
        reveal_strlit("path");
    }
    let n = style.unicode_len();
    let is_name = n == 4 && style.get_char(0) == 'n' && style.get_char(1) == 'a' && style.get_char(2)
        == 'm' && style.get_char(3) == 'e';
    if is_name {
        assert(style@ =~= "name"@);
        String::from_str("path")
    } else {
        assert(style@ != "name"@);
        String::from_str("name")
    }
}

/// The text of the drag preview: the number of rows when several are
/// dragged, else the label of the dragged row.
pub open spec fn drag_preview_text_of(rows: nat, label: Seq<char>) -> Seq<char> {
    if rows > 1 {
        "移动 "@ + decimal(rows) + " 个项目"@
    } else {
        label
    }
}

/// Builds the text of the drag preview.
pub fn drag_preview_text(rows: usize, label: &str) -> (r: String)
    ensures
        r@ == drag_preview_text_of(rows as nat, label@),
{
    if rows > 1 {
        let mut s = String::from_str("移动 ");
        push_decimal(&mut s, rows as u64);
        s.append(" 个项目");
        s
    } else {
        String::from_str(label)
    }
}

/// What a playlist row shows of its item.
#[derive(Clone, Copy, Debug, PartialEq, Eq)]
pub enum RowText {
    /// The file name.
    FileName,
    /// Album, artist and title from the file's tags.
    Tags,
    /// The full path.
    FullPath,
}

/// What the rows show under the display style `style`: `name` shows file
/// names, `tags` the tags, and any other style full paths.
pub fn row_text_source(style: &str) -> (r: RowText)
    ensures
        r == if style@ == "name"@ {
            RowText::FileName
        } else if style@ == "tags"@ {
            RowText::Tags
        } else {
            RowText::FullPath
        },
{
    if same_text(style, "name") {
        RowText::FileName
    } else if same_text(style, "tags") {
        RowText::Tags
    } else {
        RowText::FullPath
    }
}

/// The gap that a drop lands in: before the row under the pointer, or after
/// it when the pointer is on its lower half, never beyond the end.
pub fn drop_boundary(row_index: usize, after: bool, item_count: usize) -> (r: usize)
    ensures
        r == if row_index + (if after {
            1int
        } else {
            0int
        }) < item_count {
            row_index + (if after {
                1int
            } else {
                0int
            })
        } else {
            item_count as int
        },
{
    let boundary: usize = if after && row_index < item_count {
        row_index + 1
    } else if after {
        item_count
    } else {
        row_index
    };
    if boundary < item_count {
        boundary
    } else {
        item_count
    }
}

} // verus!
