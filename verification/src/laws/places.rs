//! What paths and file names mean.

use crate::block_hash::block_file_name;
use crate::encoding::uuid_text;
use crate::paths::{
    components_of, dot_rule, extension_of, file_name_of, generation_base, is_absolute_path,
    is_child_of, is_component, joined_path, kept, last_dot, main_separator, nth_name, numbered_name,
    segments, separates, stem_of, DotRule, PathStyle,
};
use crate::received_files::{artifact_path, state_path};
use crate::text::{decimal_text, ends_with_text};
use vstd::prelude::*;

verus! {

/// A path has a place of its own on Unix exactly when it starts with a slash, and on a drive of
/// Windows exactly when a separator follows the drive.
pub proof fn law_absolute_paths_start_at_a_root(path: Seq<char>)
    ensures
        is_absolute_path(PathStyle::Unix, path) <==> path.len() > 0 && path[0] == '/',
        path.len() > 2 && ('a' <= path[0] <= 'z' || 'A' <= path[0] <= 'Z') && path[1] == ':' ==> (
        is_absolute_path(PathStyle::Windows, path) <==> path[2] == '\\' || path[2] == '/'),
        path.len() == 2 && ('a' <= path[0] <= 'z' || 'A' <= path[0] <= 'Z') && path[1] == ':'
            ==> !is_absolute_path(PathStyle::Windows, path),
        path.len() > 0 && path[0] != '\\' && path[0] != '/' && (path.len() < 2 || path[1] != ':')
            ==> !is_absolute_path(PathStyle::Windows, path),
        path.len() == 0 ==> !is_absolute_path(PathStyle::Windows, path),
        path.len() >= 2 && (path[0] == '\\' || path[0] == '/') && path[1] != '\\' && path[1] != '/'
            && path[1] != ':' ==> !is_absolute_path(PathStyle::Windows, path),
{
}

/// On Unix a name is put below a directory with one slash between them, unless the directory ends
/// with one or is empty; a name with a place of its own replaces it.
pub proof fn law_names_are_put_below_directories(base: Seq<char>, name: Seq<char>)
    ensures
        ({
            let path = joined_path(PathStyle::Unix, base, name);
            &&& name.len() > 0 && name[0] == '/' ==> path == name
            &&& !(name.len() > 0 && name[0] == '/') && base.len() == 0 ==> path == name
            &&& !(name.len() > 0 && name[0] == '/') && base.len() > 0 && base.last() == '/' ==> path
                == base + name
            &&& !(name.len() > 0 && name[0] == '/') && base.len() > 0 && base.last() != '/' ==> path
                == base + seq!['/'] + name
        }),
{
    if base.len() == 0 {
        assert(base + name =~= name);
    }
}

/// A character separates the parts of a path: a slash everywhere but in verbatim paths, a
/// backslash on Windows.
pub proof fn law_separators_part_paths(verbatim: bool, character: char)
    ensures
        separates(PathStyle::Unix, verbatim, character) <==> character == '/',
        separates(PathStyle::Windows, verbatim, character) <==> character == '\\' || character
            == '/' && !verbatim,
        separates(PathStyle::Unix, verbatim, main_separator(PathStyle::Unix)),
        separates(PathStyle::Windows, verbatim, main_separator(PathStyle::Windows)),
{
}

/// The parts of a path hold no separator, and together they are as long as the path without its
/// separators.
pub proof fn law_parts_hold_no_separator(
    style: PathStyle,
    verbatim: bool,
    body: Seq<char>,
    k: int,
    i: int,
)
    requires
        0 <= k < segments(style, verbatim, body).len(),
        0 <= i < segments(style, verbatim, body)[k].len(),
    ensures
        !separates(style, verbatim, segments(style, verbatim, body)[k][i]),
    decreases body.len(),
{
    if body.len() > 0 {
        let before = segments(style, verbatim, body.drop_last());
        let now = segments(style, verbatim, body);
        lemma_some_part(style, verbatim, body.drop_last());
        if separates(style, verbatim, body.last()) {
            if k < before.len() {
                law_parts_hold_no_separator(style, verbatim, body.drop_last(), k, i);
            }
        } else if k < before.len() - 1 {
            law_parts_hold_no_separator(style, verbatim, body.drop_last(), k, i);
        } else if i < before.last().len() {
            law_parts_hold_no_separator(style, verbatim, body.drop_last(), k, i);
        }
    }
}

proof fn lemma_some_part(style: PathStyle, verbatim: bool, body: Seq<char>)
    ensures
        segments(style, verbatim, body).len() > 0,
    decreases body.len(),
{
    if body.len() > 0 {
        lemma_some_part(style, verbatim, body.drop_last());
    }
}

/// Of the parts of a path those count that are not empty and not a dot that stands for nothing.
pub proof fn law_empty_parts_do_not_count(all: Seq<Seq<char>>, dots: DotRule, n: nat, k: int)
    requires
        n <= all.len(),
        0 <= k < kept(all, dots, n).len(),
    ensures
        kept(all, dots, n)[k].len() > 0,
        dots is Never ==> kept(all, dots, n)[k] != seq!['.'],
        kept(all, dots, n).len() <= n,
    decreases n,
{
    lemma_kept_len(all, dots, n);
    if n > 0 {
        let before = kept(all, dots, (n - 1) as nat);
        if k < before.len() {
            law_empty_parts_do_not_count(all, dots, (n - 1) as nat, k);
        }
    }
}

proof fn lemma_kept_len(all: Seq<Seq<char>>, dots: DotRule, n: nat)
    ensures
        kept(all, dots, n).len() <= n,
    decreases n,
{
    if n > 0 {
        lemma_kept_len(all, dots, (n - 1) as nat);
    }
}

/// The name of a file is the last part of its path, and never a dot or two.
pub proof fn law_file_names_are_last(style: PathStyle, path: Seq<char>)
    ensures
        file_name_of(style, path) matches Some(name) ==> components_of(style, path).len() > 0
            && name == components_of(style, path).last() && name != seq!['.'] && name != seq![
            '.',
            '.',
        ],
        components_of(style, path).len() == 0 ==> file_name_of(style, path) is None,
        components_of(style, path).len() > 0 && components_of(style, path).last() != seq!['.']
            && components_of(style, path).last() != seq!['.', '.'] ==> file_name_of(style, path)
            == Some(components_of(style, path).last()),
{
}

/// A path stands directly in a directory exactly when it starts there and goes on with one part.
pub proof fn law_children_have_one_part_more(
    style: PathStyle,
    target: Seq<char>,
    directory: Seq<char>,
)
    ensures
        is_child_of(style, target, directory) ==> components_of(style, target).len()
            == components_of(style, directory).len() + 1 && forall|i: int|
            0 <= i < components_of(style, directory).len() ==> components_of(style, target)[i]
                == #[trigger] components_of(style, directory)[i],
        is_child_of(style, target, directory) ==> !is_child_of(style, directory, target),
{
    if is_child_of(style, target, directory) {
        let own = components_of(style, directory);
        assert forall|i: int| 0 <= i < own.len() implies components_of(style, target)[i]
            == #[trigger] own[i] by {
            assert(components_of(style, target).drop_last()[i] == own[i]);
        }
    }
}

/// The ending of a name is what follows its last dot, unless that is its first character; without
/// one the stem is the name. Stem, dot and ending make up the name.
pub proof fn law_stems_and_endings_make_up_names(name: Seq<char>)
    ensures
        extension_of(name) matches Some(ending) ==> {
            &&& stem_of(name).len() > 0
            &&& name == stem_of(name) + seq!['.'] + ending
            &&& forall|i: int| 0 <= i < ending.len() ==> #[trigger] ending[i] != '.'
        },
        extension_of(name) is None ==> stem_of(name) == name,
        name != seq!['.', '.'] && (exists|i: int| 0 < i < name.len() && #[trigger] name[i] == '.')
            ==> extension_of(name) is Some,
{
    lemma_last_dot(name);
    if extension_of(name) is Some {
        let at = last_dot(name)->Some_0;
        assert(name =~= name.take(at) + seq!['.'] + name.skip(at + 1));
        assert forall|i: int| 0 <= i < name.skip(at + 1).len() implies #[trigger] name.skip(
            at + 1,
        )[i] != '.' by {
            assert(name.skip(at + 1)[i] == name[at + 1 + i]);
        }
    }
}

proof fn lemma_last_dot(name: Seq<char>)
    ensures
        match last_dot(name) {
            Some(at) => 0 <= at < name.len() && name[at] == '.' && forall|i: int|
                at < i < name.len() ==> #[trigger] name[i] != '.',
            None => forall|i: int| 0 <= i < name.len() ==> #[trigger] name[i] != '.',
        },
    decreases name.len(),
{
    if name.len() > 0 && name.last() != '.' {
        let head = name.drop_last();
        lemma_last_dot(head);
        match last_dot(name) {
            Some(at) => {
                assert(head[at] == name[at]);
                assert forall|i: int| at < i < name.len() implies #[trigger] name[i] != '.' by {
                    if i < head.len() {
                        assert(head[i] == name[i]);
                    }
                }
            },
            None => {
                assert forall|i: int| 0 <= i < name.len() implies #[trigger] name[i] != '.' by {
                    if i < head.len() {
                        assert(head[i] == name[i]);
                    }
                }
            },
        }
    }
}

/// A name that is taken gets its number in brackets before the ending; the first choice is the
/// name itself.
pub proof fn law_taken_names_are_numbered(style: PathStyle, name: Seq<char>, index: u32)
    requires
        file_name_of(style, name) == Some(name),
    ensures
        nth_name(style, name, 0) == name,
        index > 0 ==> nth_name(style, name, index) == numbered_name(style, name, index),
        extension_of(name) is None ==> numbered_name(style, name, index) == name + " ("@
            + decimal_text(index as nat) + ")"@,
        extension_of(name) matches Some(ending) ==> numbered_name(style, name, index) == stem_of(
            name,
        ) + " ("@ + decimal_text(index as nat) + ")"@ + "."@ + ending,
{
}

/// The files that a record rotates through share one beginning: what stands before `.current`, or
/// all of it.
pub proof fn law_generations_share_their_beginning(path: Seq<char>)
    ensures
        !ends_with_text(path, ".current"@) ==> generation_base(path) == path,
        ends_with_text(path, ".current"@) ==> path == generation_base(path) + ".current"@,
        generation_base(path + ".current"@) == path,
{
    let tail = ".current"@;
    let whole = path + tail;
    assert(whole.subrange(whole.len() - tail.len(), whole.len() as int) =~= tail);
    assert(whole.take(whole.len() - tail.len()) =~= path);
    if ends_with_text(path, tail) {
        assert(path =~= generation_base(path) + tail);
    }
}

/// Where the files of a transfer stand: in a directory of its own, below one directory for all.
pub proof fn law_transfers_have_a_directory_each(destination: Seq<char>, transfer_id: Seq<u8>)
    requires
        destination.len() > 0,
        destination.last() != '/',
        uuid_text(transfer_id).len() > 0,
        uuid_text(transfer_id)[0] != '/',
    ensures
        artifact_path(PathStyle::Unix, destination, transfer_id) == destination + seq!['/']
            + ".flowshare-native"@ + seq!['/'] + uuid_text(transfer_id),
{
    reveal_strlit(".flowshare-native");
    let name = ".flowshare-native"@;
    law_names_are_put_below_directories(destination, name);
    let base = destination + seq!['/'] + name;
    assert(base.last() == name.last());
    law_names_are_put_below_directories(base, uuid_text(transfer_id));
}

/// The hashes of the blocks stand beside the checkpoint: what names the checkpoint at the end of
/// its name is replaced, and where nothing does, the ending is added.
pub proof fn law_block_files_stand_beside_checkpoints(stem: Seq<char>)
    ensures
        block_file_name(stem + ".resume.current"@) == stem + ".blocks.current"@,
        block_file_name(stem + ".resume"@) == stem + ".blocks.current"@,
        !ends_with_text(stem, ".resume"@) ==> block_file_name(stem + ".current"@) == stem
            + ".blocks.current"@,
        !ends_with_text(stem, ".resume"@) && !ends_with_text(stem, ".current"@)
            ==> block_file_name(stem) == stem + ".blocks.current"@,
{
    reveal_strlit(".resume.current");
    reveal_strlit(".resume");
    reveal_strlit(".current");
    let n = stem.len() as int;
    let first = stem + ".resume.current"@;
    assert(first.subrange(first.len() - 15, first.len() as int) =~= ".resume.current"@);
    assert(first.take(first.len() - 15) =~= stem);
    let second = stem + ".resume"@;
    assert(second.subrange(second.len() - 7, second.len() as int) =~= ".resume"@);
    assert(second.take(second.len() - 7) =~= stem);
    assert(second.last() == 'e');
    if ends_with_text(second, ".resume.current"@) {
        assert(second.subrange(second.len() - 15, second.len() as int).last() == second.last());
        assert(".resume.current"@.last() == 't');
    }
    let third = stem + ".current"@;
    assert(third.subrange(third.len() - 8, third.len() as int) =~= ".current"@);
    assert(third.take(third.len() - 8) =~= stem);
    assert(third.last() == 't');
    if ends_with_text(third, ".resume"@) {
        assert(third.subrange(third.len() - 7, third.len() as int).last() == third.last());
        assert(".resume"@.last() == 'e');
    }
    if ends_with_text(third, ".resume.current"@) {
        let tail = third.subrange(third.len() - 15, third.len() as int);
        assert(tail == ".resume.current"@);
        assert(stem.subrange(n - 7, n) =~= tail.take(7));
        assert(tail.take(7) =~= ".resume"@);
    }
    if ends_with_text(stem, ".resume.current"@) {
        let tail = stem.subrange(n - 15, n);
        assert(stem.subrange(n - 8, n) =~= tail.skip(7));
        assert(tail.skip(7) =~= ".current"@);
    }
}

/// On Unix what is kept of transfers stands in a directory for each direction below the root.
pub proof fn law_states_are_kept_by_direction(root: Seq<char>, direction: Seq<char>)
    requires
        root.len() > 0,
        root.last() != '/',
        direction.len() > 0,
        direction[0] != '/',
    ensures
        state_path(PathStyle::Unix, root, direction) == root + "/FlowGet/flowshare-native/"@
            + direction,
{
    reveal_strlit("FlowGet");
    reveal_strlit("flowshare-native");
    reveal_strlit("/FlowGet/flowshare-native/");
    let first = root + seq!['/'] + "FlowGet"@;
    law_names_are_put_below_directories(root, "FlowGet"@);
    law_names_are_put_below_directories(first, "flowshare-native"@);
    let second = first + seq!['/'] + "flowshare-native"@;
    assert(first.last() == 't');
    assert(second.last() == 'e');
    law_names_are_put_below_directories(second, direction);
    assert(second + seq!['/'] + direction =~= root + "/FlowGet/flowshare-native/"@ + direction);
}

/// A part counts when it is neither empty nor a dot; a dot counts where all parts do, and as the
/// first part of a path without a root.
pub proof fn law_parts_count_by_the_rule_for_dots(all: Seq<Seq<char>>, dots: DotRule, index: int)
    ensures
        all[index].len() == 0 ==> !is_component(all, dots, index),
        all[index].len() > 0 && all[index] != seq!['.'] ==> is_component(all, dots, index),
        all[index] == seq!['.'] ==> (is_component(all, dots, index) <==> dots is All || dots is First
            && index == 0),
        dot_rule(PathStyle::Unix, all[index]) is First || dot_rule(PathStyle::Unix, all[index])
            is Never,
        dot_rule(PathStyle::Unix, all[index]) is Never <==> all[index].len() > 0 && all[index][0]
            == '/',
{
}

} // verus!
