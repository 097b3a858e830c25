//! Paths as Unix and Windows write them, and the parts of file names.

use crate::text::{
    append_text, chars_of, decimal, decimal_text, same_chars, text_of, upper_char,
};
use vstd::prelude::*;

verus! {

/// How the paths of a system are written.
#[derive(Debug, Clone, Copy, PartialEq, Eq, Structural)]
pub enum PathStyle {
    /// Slashes separate, and a path that starts with one is absolute.
    Unix,
    /// Backslashes and slashes separate, and a path may start with a drive or a share.
    Windows,
}

/// What a path starts with before its root.
#[derive(Debug, Clone, Copy, PartialEq, Eq, Structural)]
pub enum PrefixKind {
    /// Nothing.
    Bare,
    /// A drive: `C:`.
    Drive,
    /// A share of a server: `\\server\share`.
    Share,
    /// A device: `\\.\name`.
    Device,
    /// A name that is taken as it is: `\\?\name`.
    Verbatim,
    /// A drive whose path is taken as it is: `\\?\C:`.
    VerbatimDrive,
    /// A share whose path is taken as it is: `\\?\UNC\server\share`.
    VerbatimShare,
}

/// Whether the path behind such a prefix is taken as it is: only backslashes separate, and a
/// single dot is a component.
pub open spec fn is_verbatim(kind: PrefixKind) -> bool {
    kind is Verbatim || kind is VerbatimDrive || kind is VerbatimShare
}

/// Whether a path with such a prefix starts at a root even where no separator follows.
pub open spec fn implies_root(kind: PrefixKind) -> bool {
    !(kind is Bare) && !(kind is Drive)
}

/// Whether a character separates the components of a path.
pub open spec fn separates(style: PathStyle, verbatim: bool, character: char) -> bool {
    match style {
        PathStyle::Unix => character == '/',
        PathStyle::Windows => character == '\\' || (!verbatim && character == '/'),
    }
}

/// The separator that goes between two parts of a path.
pub open spec fn main_separator(style: PathStyle) -> char {
    match style {
        PathStyle::Unix => '/',
        PathStyle::Windows => '\\',
    }
}

/// Where the stretch without separators that starts at `from` ends.
pub open spec fn stretch_end(path: Seq<char>, from: int, verbatim: bool) -> int
    decreases path.len() - from,
{
    if from >= path.len() {
        path.len() as int
    } else if separates(PathStyle::Windows, verbatim, path[from]) {
        from
    } else {
        stretch_end(path, from + 1, verbatim)
    }
}

/// Whether a drive stands at the given place.
pub open spec fn drive_at(path: Seq<char>, at: int) -> bool {
    at + 1 < path.len() && ('a' <= path[at] <= 'z' || 'A' <= path[at] <= 'Z') && path[at + 1]
        == ':'
}

/// Whether there is a Windows separator at the given place.
pub open spec fn separator_at(path: Seq<char>, at: int) -> bool {
    at < path.len() && separates(PathStyle::Windows, false, path[at])
}

/// Whether a path starts with `\\?\`, written with backslashes only.
pub open spec fn starts_verbatim(path: Seq<char>) -> bool {
    path.len() >= 4 && path[0] == '\\' && path[1] == '\\' && path[2] == '?' && path[3] == '\\'
}

/// Whether `UNC\` follows at the fifth place.
pub open spec fn names_share(path: Seq<char>) -> bool {
    path.len() >= 8 && path[4] == 'U' && path[5] == 'N' && path[6] == 'C' && separator_at(path, 7)
}

/// Where a server and its share end, and whether both are there. Without a share the server ends
/// the prefix.
pub open spec fn share_end(path: Seq<char>, from: int, verbatim: bool) -> (bool, int) {
    let server = stretch_end(path, from, verbatim);
    let share = stretch_end(path, server + 1, verbatim);
    if share > server + 1 {
        (server > from, share)
    } else {
        (false, server)
    }
}

/// What a path starts with, and where that ends.
pub open spec fn prefix_of(style: PathStyle, path: Seq<char>) -> (PrefixKind, int) {
    if style is Unix {
        (PrefixKind::Bare, 0)
    } else if separator_at(path, 0) && separator_at(path, 1) {
        if starts_verbatim(path) {
            if names_share(path) {
                (PrefixKind::VerbatimShare, share_end(path, 8, true).1)
            } else if drive_at(path, 4) && (path.len() == 6 || separator_at(path, 6)) {
                (PrefixKind::VerbatimDrive, 6)
            } else {
                (PrefixKind::Verbatim, stretch_end(path, 4, true))
            }
        } else if path.len() >= 4 && path[2] == '.' && separator_at(path, 3) {
            (PrefixKind::Device, stretch_end(path, 4, false))
        } else if share_end(path, 2, false).0 {
            (PrefixKind::Share, share_end(path, 2, false).1)
        } else {
            (PrefixKind::Bare, 0)
        }
    } else if drive_at(path, 0) {
        (PrefixKind::Drive, 2)
    } else {
        (PrefixKind::Bare, 0)
    }
}

/// Whether a separator stands behind the prefix of a path.
pub open spec fn is_rooted(style: PathStyle, path: Seq<char>) -> bool {
    let end = prefix_of(style, path).1;
    end < path.len() && separates(style, false, path[end])
}

/// Whether the path starts at a root.
pub open spec fn has_root(style: PathStyle, path: Seq<char>) -> bool {
    is_rooted(style, path) || implies_root(prefix_of(style, path).0)
}

/// Whether the path says where it stands by itself: on Unix it starts at the root, on Windows it
/// has a prefix too.
pub open spec fn is_absolute_path(style: PathStyle, path: Seq<char>) -> bool {
    has_root(style, path) && (style is Unix || !(prefix_of(style, path).0 is Bare))
}

/// Where the components of a path start.
pub open spec fn body_start(style: PathStyle, path: Seq<char>) -> int {
    prefix_of(style, path).1 + if is_rooted(style, path) {
        1int
    } else {
        0int
    }
}

/// The path behind its prefix and its root.
pub open spec fn body_of(style: PathStyle, path: Seq<char>) -> Seq<char> {
    path.skip(body_start(style, path))
}

/// What stands between the separators, empty stretches included.
pub open spec fn segments(style: PathStyle, verbatim: bool, body: Seq<char>) -> Seq<Seq<char>>
    decreases body.len(),
{
    if body.len() == 0 {
        seq![Seq::empty()]
    } else if separates(style, verbatim, body.last()) {
        segments(style, verbatim, body.drop_last()).push(Seq::empty())
    } else {
        let before = segments(style, verbatim, body.drop_last());
        before.drop_last().push(before.last().push(body.last()))
    }
}

/// Which single dots are components: all of them, the first one or none.
#[derive(Debug, Clone, Copy, PartialEq, Eq, Structural)]
pub enum DotRule {
    All,
    First,
    Never,
}

/// Whether the segment with the given index is a component: it is not empty, and it is a single
/// dot only where the rule has it.
pub open spec fn is_component(all: Seq<Seq<char>>, dots: DotRule, index: int) -> bool {
    all[index].len() > 0 && (all[index] != seq!['.'] || dots is All || (index == 0
        && dots is First))
}

/// The components among the first `n` segments.
pub open spec fn kept(all: Seq<Seq<char>>, dots: DotRule, n: nat) -> Seq<Seq<char>>
    decreases n,
{
    if n == 0 {
        Seq::empty()
    } else {
        let before = kept(all, dots, (n - 1) as nat);
        if is_component(all, dots, n - 1) {
            before.push(all[n - 1])
        } else {
            before
        }
    }
}

/// The rule for the dots of a path: where the path is taken as it is they are all components,
/// and at the start of a path without a prefix and a root the first one is.
pub open spec fn dot_rule(style: PathStyle, path: Seq<char>) -> DotRule {
    let kind = prefix_of(style, path).0;
    if is_verbatim(kind) {
        DotRule::All
    } else if kind is Bare && !is_rooted(style, path) {
        DotRule::First
    } else {
        DotRule::Never
    }
}

/// The segments of a path behind its prefix and its root.
pub open spec fn path_segments(style: PathStyle, path: Seq<char>) -> Seq<Seq<char>> {
    segments(style, is_verbatim(prefix_of(style, path).0), body_of(style, path))
}

/// The components of a path, the prefix and the root left out.
pub open spec fn components_of(style: PathStyle, path: Seq<char>) -> Seq<Seq<char>> {
    let all = path_segments(style, path);
    kept(all, dot_rule(style, path), all.len())
}

/// Whether a component names an entry of its directory.
pub open spec fn is_normal(component: Seq<char>) -> bool {
    component != seq!['.'] && component != seq!['.', '.']
}

/// What tells two prefixes of one kind apart: the letter of a drive in capitals, or the names.
pub open spec fn prefix_name(style: PathStyle, path: Seq<char>) -> Seq<char> {
    let (kind, end) = prefix_of(style, path);
    match kind {
        PrefixKind::Bare => Seq::empty(),
        PrefixKind::Drive => seq![upper_char(path[0])],
        PrefixKind::Share => Seq::new(
            (end - 2) as nat,
            |i: int|
                if path[i + 2] == '/' {
                    '\\'
                } else {
                    path[i + 2]
                },
        ),
        PrefixKind::Device => path.subrange(4, end),
        PrefixKind::Verbatim => path.subrange(4, end),
        PrefixKind::VerbatimDrive => seq![upper_char(path[4])],
        PrefixKind::VerbatimShare => path.subrange(8, end),
    }
}

/// Whether the root counts as a component of its own.
pub open spec fn shows_root(style: PathStyle, path: Seq<char>) -> bool {
    let kind = prefix_of(style, path).0;
    is_rooted(style, path) || (implies_root(kind) && !is_verbatim(kind))
}

/// Whether two paths start in the same place: their prefixes and their roots are the same.
pub open spec fn same_start(style: PathStyle, left: Seq<char>, right: Seq<char>) -> bool {
    &&& prefix_of(style, left).0 == prefix_of(style, right).0
    &&& prefix_name(style, left) == prefix_name(style, right)
    &&& shows_root(style, left) == shows_root(style, right)
}

/// Whether `target` names an entry directly in `directory`.
pub open spec fn is_child_of(style: PathStyle, target: Seq<char>, directory: Seq<char>) -> bool {
    &&& same_start(style, target, directory)
    &&& components_of(style, target).len() > 0
    &&& components_of(style, target).drop_last() == components_of(style, directory)
}

/// The last component of a path, if it names an entry.
pub open spec fn file_name_of(style: PathStyle, path: Seq<char>) -> Option<Seq<char>> {
    let components = components_of(style, path);
    if components.len() > 0 && is_normal(components.last()) {
        Some(components.last())
    } else {
        None
    }
}

/// The texts of a list of character sequences.
pub open spec fn texts(list: Seq<Vec<char>>) -> Seq<Seq<char>> {
    Seq::new(list.len(), |i: int| list[i]@)
}

fn is_separator(style: PathStyle, verbatim: bool, character: char) -> (separator: bool)
    ensures
        separator == separates(style, verbatim, character),
{
    match style {
        PathStyle::Unix => character == '/',
        PathStyle::Windows => character == '\\' || (!verbatim && character == '/'),
    }
}

fn find_separator(path: &Vec<char>, from: usize, verbatim: bool) -> (end: usize)
    ensures
        end == stretch_end(path@, from as int, verbatim),
        end <= path.len(),
        from <= path.len() ==> from <= end,
{
    if from >= path.len() {
        return path.len();
    }
    let mut end: usize = from;
    while end < path.len() && !is_separator(PathStyle::Windows, verbatim, path[end])
        invariant
            from <= end <= path.len(),
            stretch_end(path@, from as int, verbatim) == stretch_end(path@, end as int, verbatim),
        decreases path.len() - end,
    {
        end += 1;
    }
    end
}

fn has_separator_at(path: &Vec<char>, at: usize) -> (found: bool)
    ensures
        found == separator_at(path@, at as int),
{
    at < path.len() && is_separator(PathStyle::Windows, false, path[at])
}

fn has_drive_at(path: &Vec<char>, at: usize) -> (found: bool)
    requires
        at <= 4,
    ensures
        found == drive_at(path@, at as int),
{
    at + 1 < path.len() && (('a' <= path[at] && path[at] <= 'z') || ('A' <= path[at] && path[at]
        <= 'Z')) && path[at + 1] == ':'
}

fn find_share(path: &Vec<char>, from: usize, verbatim: bool) -> (found: (bool, usize))
    requires
        from <= path.len(),
    ensures
        found.0 == share_end(path@, from as int, verbatim).0,
        found.1 == share_end(path@, from as int, verbatim).1,
        from <= found.1 <= path.len(),
{
    let server: usize = find_separator(path, from, verbatim);
    if server == path.len() {
        return (false, server);
    }
    let share: usize = find_separator(path, server + 1, verbatim);
    if share > server + 1 {
        (server > from, share)
    } else {
        (false, server)
    }
}

fn find_prefix(style: PathStyle, path: &Vec<char>) -> (prefix: (PrefixKind, usize))
    ensures
        prefix.0 == prefix_of(style, path@).0,
        prefix.1 == prefix_of(style, path@).1,
        prefix.1 <= path.len(),
        prefix.0 is Drive ==> path.len() >= 2,
        prefix.0 is Share ==> prefix.1 >= 2,
        prefix.0 is Device || prefix.0 is Verbatim ==> prefix.1 >= 4,
        prefix.0 is VerbatimDrive ==> path.len() >= 6,
        prefix.0 is VerbatimShare ==> prefix.1 >= 8,
{
    match style {
        PathStyle::Unix => {
            return (PrefixKind::Bare, 0);
        },
        PathStyle::Windows => {},
    }
    if !has_separator_at(path, 0) || !has_separator_at(path, 1) {
        return if has_drive_at(path, 0) {
            (PrefixKind::Drive, 2)
        } else {
            (PrefixKind::Bare, 0)
        };
    }
    if path.len() >= 4 && path[0] == '\\' && path[1] == '\\' && path[2] == '?' && path[3]
        == '\\' {
        if path.len() >= 8 && path[4] == 'U' && path[5] == 'N' && path[6] == 'C'
            && has_separator_at(path, 7) {
            return (PrefixKind::VerbatimShare, find_share(path, 8, true).1);
        }
        if has_drive_at(path, 4) && (path.len() == 6 || has_separator_at(path, 6)) {
            return (PrefixKind::VerbatimDrive, 6);
        }
        return (PrefixKind::Verbatim, find_separator(path, 4, true));
    }
    if path.len() >= 4 && path[2] == '.' && has_separator_at(path, 3) {
        return (PrefixKind::Device, find_separator(path, 4, false));
    }
    let (found, end) = find_share(path, 2, false);
    if found {
        (PrefixKind::Share, end)
    } else {
        (PrefixKind::Bare, 0)
    }
}

fn is_taken_as_is(kind: PrefixKind) -> (verbatim: bool)
    ensures
        verbatim == is_verbatim(kind),
{
    match kind {
        PrefixKind::Verbatim | PrefixKind::VerbatimDrive | PrefixKind::VerbatimShare => true,
        _ => false,
    }
}

fn gives_root(kind: PrefixKind) -> (root: bool)
    ensures
        root == implies_root(kind),
{
    match kind {
        PrefixKind::Bare | PrefixKind::Drive => false,
        _ => true,
    }
}

/// A path, taken apart.
struct Parts {
    chars: Vec<char>,
    kind: PrefixKind,
    /// Where the prefix ends.
    end: usize,
    /// Whether a separator follows the prefix.
    rooted: bool,
    /// Where the components start.
    start: usize,
    dots: DotRule,
    segments: Vec<Vec<char>>,
}

impl Parts {
    spec fn are_of(self, style: PathStyle, path: Seq<char>) -> bool {
        &&& self.chars@ == path
        &&& self.kind == prefix_of(style, path).0
        &&& self.end == prefix_of(style, path).1
        &&& self.end <= self.start <= self.chars.len()
        &&& self.rooted == is_rooted(style, path)
        &&& self.start == body_start(style, path)
        &&& self.dots == dot_rule(style, path)
        &&& texts(self.segments@) == path_segments(style, path)
        &&& self.kind is Drive ==> self.chars.len() >= 2
        &&& self.kind is Share ==> self.end >= 2
        &&& self.kind is Device || self.kind is Verbatim ==> self.end >= 4
        &&& self.kind is VerbatimDrive ==> self.chars.len() >= 6
        &&& self.kind is VerbatimShare ==> self.end >= 8
    }

    fn has_root(&self) -> (root: bool)
        ensures
            root == (self.rooted || implies_root(self.kind)),
    {
        self.rooted || gives_root(self.kind)
    }

    fn shows_root(&self) -> (root: bool)
        ensures
            root == (self.rooted || (implies_root(self.kind) && !is_verbatim(self.kind))),
    {
        self.rooted || (gives_root(self.kind) && !is_taken_as_is(self.kind))
    }

    fn prefix_name(&self, Ghost(style): Ghost<PathStyle>, Ghost(path): Ghost<Seq<char>>) -> (name:
        Vec<char>)
        requires
            self.are_of(style, path),
        ensures
            name@ == prefix_name(style, path),
    {
        match self.kind {
            PrefixKind::Bare => {
                let name: Vec<char> = Vec::new();
                assert(name@ =~= Seq::empty());
                name
            },
            PrefixKind::Drive => {
                let mut name: Vec<char> = Vec::new();
                name.push(capital(self.chars[0]));
                assert(name@ =~= seq![upper_char(path[0])]);
                name
            },
            PrefixKind::VerbatimDrive => {
                let mut name: Vec<char> = Vec::new();
                name.push(capital(self.chars[4]));
                assert(name@ =~= seq![upper_char(path[4])]);
                name
            },
            PrefixKind::Share => {
                let mut name: Vec<char> = Vec::new();
                let mut index: usize = 2;
                while index < self.end
                    invariant
                        2 <= index <= self.end,
                        self.end <= self.chars.len(),
                        self.chars@ == path,
                        self.kind is Share,
                        self.kind == prefix_of(style, path).0,
                        self.end == prefix_of(style, path).1,
                        name@ == prefix_name(style, path).take(index - 2),
                    decreases self.end - index,
                {
                    let ghost before = name@;
                    let character: char = self.chars[index];
                    if character == '/' {
                        name.push('\\');
                    } else {
                        name.push(character);
                    }
                    index += 1;
                    assert(name@ =~= prefix_name(style, path).take(index - 2));
                }
                assert(prefix_name(style, path).take(self.end - 2) =~= prefix_name(style, path));
                name
            },
            PrefixKind::Device | PrefixKind::Verbatim => slice_chars(&self.chars, 4, self.end),
            PrefixKind::VerbatimShare => slice_chars(&self.chars, 8, self.end),
        }
    }

    fn components(&self) -> (list: Vec<Vec<char>>)
        ensures
            texts(list@) == kept(texts(self.segments@), self.dots, self.segments@.len()),
    {
        let mut list: Vec<Vec<char>> = Vec::new();
        let mut index: usize = 0;
        assert(texts(list@) =~= kept(texts(self.segments@), self.dots, 0));
        while index < self.segments.len()
            invariant
                index <= self.segments.len(),
                texts(list@) == kept(texts(self.segments@), self.dots, index as nat),
            decreases self.segments.len() - index,
        {
            let ghost before = texts(list@);
            if self.names(index) {
                let copy = copy_chars(&self.segments[index]);
                list.push(copy);
                assert(texts(list@) =~= before.push(copy@));
            }
            index += 1;
        }
        list
    }

    /// Whether the segment with the given index is a component.
    fn names(&self, index: usize) -> (component: bool)
        requires
            index < self.segments.len(),
        ensures
            component == is_component(texts(self.segments@), self.dots, index as int),
    {
        assert(texts(self.segments@)[index as int] == self.segments@[index as int]@);
        if self.segments[index].len() == 0 {
            return false;
        }
        if !is_dot(&self.segments[index]) {
            return true;
        }
        match self.dots {
            DotRule::All => true,
            DotRule::First => index == 0,
            DotRule::Never => false,
        }
    }
}

fn capital(character: char) -> (upper: char)
    ensures
        upper == upper_char(character),
{
    if 'a' <= character && character <= 'z' {
        (character as u8 - 32) as char
    } else {
        character
    }
}

fn split(style: PathStyle, verbatim: bool, path: &Vec<char>, start: usize) -> (all: Vec<Vec<char>>)
    requires
        start <= path.len(),
    ensures
        texts(all@) == segments(style, verbatim, path@.skip(start as int)),
{
    let mut all: Vec<Vec<char>> = Vec::new();
    let mut current: Vec<char> = Vec::new();
    let mut index: usize = start;
    let ghost body = path@.skip(start as int);
    assert(texts(all@).push(current@) =~= segments(style, verbatim, body.take(0)));
    while index < path.len()
        invariant
            start <= index <= path.len(),
            body == path@.skip(start as int),
            texts(all@).push(current@) == segments(style, verbatim, body.take(index - start)),
        decreases path.len() - index,
    {
        let character: char = path[index];
        let ghost before = body.take(index - start);
        let ghost here = body.take(index + 1 - start);
        let ghost done = texts(all@);
        proof {
            assert(here.drop_last() =~= before);
            assert(here.last() == character);
        }
        if is_separator(style, verbatim, character) {
            let ghost closed = current@;
            all.push(current);
            current = Vec::new();
            proof {
                assert(texts(all@) =~= done.push(closed));
                assert(texts(all@).push(current@) =~= segments(style, verbatim, here));
            }
        } else {
            current.push(character);
            proof {
                assert(segments(style, verbatim, before).drop_last() =~= done);
                assert(texts(all@).push(current@) =~= segments(style, verbatim, here));
            }
        }
        index += 1;
    }
    let ghost done = texts(all@);
    let ghost last = current@;
    all.push(current);
    proof {
        assert(texts(all@) =~= done.push(last));
        assert(body.take(body.len() as int) =~= body);
    }
    all
}

fn take_apart(style: PathStyle, path: &str) -> (parts: Parts)
    ensures
        parts.are_of(style, path@),
{
    let chars = chars_of(path);
    let (kind, end) = find_prefix(style, &chars);
    let rooted: bool = end < chars.len() && is_separator(style, false, chars[end]);
    let start: usize = if rooted {
        end + 1
    } else {
        end
    };
    let verbatim: bool = is_taken_as_is(kind);
    let bare: bool = match kind {
        PrefixKind::Bare => true,
        _ => false,
    };
    let dots = if verbatim {
        DotRule::All
    } else if bare && !rooted {
        DotRule::First
    } else {
        DotRule::Never
    };
    let segments = split(style, verbatim, &chars, start);
    Parts { chars, kind, end, rooted, start, dots, segments }
}

fn is_dot(segment: &Vec<char>) -> (dot: bool)
    ensures
        dot == (segment@ == seq!['.']),
{
    let dot: bool = segment.len() == 1 && segment[0] == '.';
    proof {
        if dot {
            assert(segment@ =~= seq!['.']);
        } else if segment@ == seq!['.'] {
            assert(segment@.len() == 1 && segment@[0] == '.');
        }
    }
    dot
}

fn is_dot_dot(segment: &Vec<char>) -> (dots: bool)
    ensures
        dots == (segment@ == seq!['.', '.']),
{
    let dots: bool = segment.len() == 2 && segment[0] == '.' && segment[1] == '.';
    proof {
        if dots {
            assert(segment@ =~= seq!['.', '.']);
        } else if segment@ == seq!['.', '.'] {
            assert(segment@.len() == 2 && segment@[0] == '.' && segment@[1] == '.');
        }
    }
    dots
}

/// A fresh vector with the characters of `source`.
pub fn copy_chars(source: &Vec<char>) -> (copy: Vec<char>)
    ensures
        copy@ == source@,
{
    let mut copy: Vec<char> = Vec::new();
    let mut index: usize = 0;
    while index < source.len()
        invariant
            index <= source.len(),
            copy@ == source@.take(index as int),
        decreases source.len() - index,
    {
        copy.push(source[index]);
        index += 1;
        assert(copy@ =~= source@.take(index as int));
    }
    assert(source@.take(source@.len() as int) =~= source@);
    copy
}

/// Whether the path says where it stands by itself.
pub fn is_absolute(style: PathStyle, path: &str) -> (absolute: bool)
    ensures
        absolute == is_absolute_path(style, path@),
{
    let parts = take_apart(style, path);
    let prefixed: bool = match parts.kind {
        PrefixKind::Bare => false,
        _ => true,
    };
    match style {
        PathStyle::Unix => parts.has_root(),
        PathStyle::Windows => prefixed && parts.has_root(),
    }
}

/// Whether `target` names an entry directly in `directory`.
pub fn is_child(style: PathStyle, target: &str, directory: &str) -> (child: bool)
    ensures
        child == is_child_of(style, target@, directory@),
{
    let target_parts = take_apart(style, target);
    let directory_parts = take_apart(style, directory);
    if target_parts.kind != directory_parts.kind || target_parts.shows_root()
        != directory_parts.shows_root() {
        return false;
    }
    let target_prefix = target_parts.prefix_name(Ghost(style), Ghost(target@));
    let directory_prefix = directory_parts.prefix_name(Ghost(style), Ghost(directory@));
    if !same_chars(&target_prefix, &directory_prefix) {
        return false;
    }
    let inner = target_parts.components();
    let outer = directory_parts.components();
    proof {
        assert(texts(target_parts.segments@).len() == target_parts.segments@.len());
        assert(texts(directory_parts.segments@).len() == directory_parts.segments@.len());
        assert(texts(inner@).len() == inner@.len());
        assert(texts(outer@).len() == outer@.len());
    }
    if inner.len() == 0 || inner.len() - 1 != outer.len() {
        proof {
            if is_child_of(style, target@, directory@) {
                assert(texts(inner@).drop_last().len() == texts(outer@).len());
            }
        }
        return false;
    }
    let mut index: usize = 0;
    while index < outer.len()
        invariant
            index <= outer.len(),
            inner@.len() == outer@.len() + 1,
            texts(inner@) == components_of(style, target@),
            texts(outer@) == components_of(style, directory@),
            forall|i: int| 0 <= i < index ==> inner@[i]@ == outer@[i]@,
        decreases outer.len() - index,
    {
        if !same_chars(&inner[index], &outer[index]) {
            proof {
                assert(texts(inner@).drop_last()[index as int] == inner@[index as int]@);
                assert(texts(outer@)[index as int] == outer@[index as int]@);
            }
            return false;
        }
        index += 1;
    }
    assert(texts(inner@).drop_last() =~= texts(outer@));
    true
}

/// The last component of `path`, if it names an entry.
pub fn file_name(style: PathStyle, path: &str) -> (name: Option<String>)
    ensures
        match name {
            Some(text) => file_name_of(style, path@) == Some(text@),
            None => file_name_of(style, path@) is None,
        },
{
    let parts = take_apart(style, path);
    let list = parts.components();
    assert(texts(parts.segments@).len() == parts.segments@.len());
    assert(texts(list@).len() == list@.len());
    if list.len() == 0 {
        return None;
    }
    let last = &list[list.len() - 1];
    assert(texts(list@).last() == last@);
    if is_dot(last) || is_dot_dot(last) {
        return None;
    }
    Some(text_of(last))
}

/// Whether a path is not put below another one but takes its place: it has a prefix, or it is
/// absolute.
pub open spec fn takes_over(style: PathStyle, path: Seq<char>) -> bool {
    is_absolute_path(style, path) || !(prefix_of(style, path).0 is Bare)
}

/// The components that are reached from `list` by the first `n` steps: a dot stays, two dots go
/// back over a name, and a name goes on.
pub open spec fn walked(list: Seq<Seq<char>>, steps: Seq<Seq<char>>, n: nat) -> Seq<Seq<char>>
    decreases n,
{
    if n == 0 {
        list
    } else {
        let before = walked(list, steps, (n - 1) as nat);
        let step = steps[n - 1];
        if step == seq!['.'] {
            before
        } else if step == seq!['.', '.'] {
            if before.len() > 0 && is_normal(before.last()) {
                before.drop_last()
            } else {
                before
            }
        } else {
            before.push(step)
        }
    }
}

/// The components, each with a backslash before it.
pub open spec fn written_out(list: Seq<Seq<char>>) -> Seq<char>
    decreases list.len(),
{
    if list.len() == 0 {
        Seq::empty()
    } else {
        written_out(list.drop_last()) + seq!['\\'] + list.last()
    }
}

/// The components behind a prefix whose path is taken as it is, once `name` was put below `base`.
pub open spec fn verbatim_components(base: Seq<char>, name: Seq<char>) -> Seq<Seq<char>> {
    let style = PathStyle::Windows;
    let steps = components_of(style, name);
    let list = if is_rooted(style, name) {
        Seq::empty()
    } else {
        components_of(style, base)
    };
    walked(list, steps, steps.len())
}

/// `base`, whose path is taken as it is, with `name` below it: the path is written anew from its
/// components, without dots.
pub open spec fn verbatim_join(base: Seq<char>, name: Seq<char>) -> Seq<char> {
    let style = PathStyle::Windows;
    let prefix = base.take(prefix_of(style, base).1);
    let list = verbatim_components(base, name);
    if list.len() == 0 && (is_rooted(style, name) || is_rooted(style, base)) {
        prefix + seq!['\\']
    } else {
        prefix + written_out(list)
    }
}

/// Whether what is put below `base` goes right behind it: `base` is empty, ends with a separator
/// or is no more than a drive.
pub open spec fn needs_no_separator(style: PathStyle, base: Seq<char>) -> bool {
    ||| base.len() == 0
    ||| separates(style, false, base.last())
    ||| prefix_of(style, base) == (PrefixKind::Drive, base.len() as int)
}

/// `base` with `name` below it. A `name` with a place of its own replaces `base`, and one that
/// starts at a root keeps no more of `base` than its prefix.
pub open spec fn joined_path(style: PathStyle, base: Seq<char>, name: Seq<char>) -> Seq<char> {
    if takes_over(style, name) {
        name
    } else if is_verbatim(prefix_of(style, base).0) && name.len() > 0 {
        verbatim_join(base, name)
    } else if is_rooted(style, name) {
        base.take(prefix_of(style, base).1) + name
    } else if needs_no_separator(style, base) {
        base + name
    } else {
        base + seq![main_separator(style)] + name
    }
}

fn append_chars(text: &mut Vec<char>, tail: &Vec<char>)
    ensures
        final(text)@ == old(text)@ + tail@,
{
    let ghost start = text@;
    let mut index: usize = 0;
    while index < tail.len()
        invariant
            index <= tail.len(),
            text@ == start + tail@.take(index as int),
        decreases tail.len() - index,
    {
        text.push(tail[index]);
        index += 1;
        assert(text@ =~= start + tail@.take(index as int));
    }
    assert(tail@.take(tail@.len() as int) =~= tail@);
}

fn walk(list: Vec<Vec<char>>, steps: &Vec<Vec<char>>) -> (reached: Vec<Vec<char>>)
    ensures
        texts(reached@) == walked(texts(list@), texts(steps@), steps@.len()),
{
    let mut reached = list;
    let mut index: usize = 0;
    while index < steps.len()
        invariant
            index <= steps.len(),
            texts(reached@) == walked(texts(list@), texts(steps@), index as nat),
        decreases steps.len() - index,
    {
        let ghost before = texts(reached@);
        let step = &steps[index];
        assert(texts(steps@)[index as int] == step@);
        if is_dot_dot(step) {
            if reached.len() > 0 {
                let last = &reached[reached.len() - 1];
                assert(before.last() == last@);
                if !is_dot(last) && !is_dot_dot(last) {
                    let _ = reached.pop();
                    assert(texts(reached@) =~= before.drop_last());
                }
            }
        } else if !is_dot(step) {
            let copy = copy_chars(step);
            reached.push(copy);
            assert(texts(reached@) =~= before.push(copy@));
        }
        index += 1;
    }
    reached
}

fn write_out(list: &Vec<Vec<char>>) -> (text: Vec<char>)
    ensures
        text@ == written_out(texts(list@)),
{
    let mut text: Vec<char> = Vec::new();
    let mut index: usize = 0;
    let ghost all = texts(list@);
    assert(text@ =~= written_out(all.take(0)));
    while index < list.len()
        invariant
            index <= list.len(),
            all == texts(list@),
            text@ == written_out(all.take(index as int)),
        decreases list.len() - index,
    {
        let ghost before = text@;
        text.push('\\');
        append_chars(&mut text, &list[index]);
        proof {
            assert(all.take(index + 1).drop_last() =~= all.take(index as int));
            assert(all.take(index + 1).last() == list@[index as int]@);
            assert(text@ =~= before + seq!['\\'] + list@[index as int]@);
        }
        index += 1;
    }
    assert(all.take(all.len() as int) =~= all);
    text
}

/// `base` with `name` below it.
pub fn join_path(style: PathStyle, base: &str, name: &str) -> (path: String)
    ensures
        path@ == joined_path(style, base@, name@),
{
    let name_parts = take_apart(style, name);
    let bare: bool = match name_parts.kind {
        PrefixKind::Bare => true,
        _ => false,
    };
    let absolute: bool = is_absolute(style, name);
    if absolute || !bare {
        return name.to_owned();
    }
    let base_parts = take_apart(style, base);
    if is_taken_as_is(base_parts.kind) && name_parts.chars.len() > 0 {
        let steps = name_parts.components();
        let list: Vec<Vec<char>> = if name_parts.rooted {
            Vec::new()
        } else {
            base_parts.components()
        };
        proof {
            assert(texts(name_parts.segments@).len() == name_parts.segments@.len());
            assert(texts(base_parts.segments@).len() == base_parts.segments@.len());
            assert(texts(steps@).len() == steps@.len());
            if name_parts.rooted {
                assert(texts(list@) =~= Seq::empty());
            }
        }
        let reached = walk(list, &steps);
        let mut text = slice_chars(&base_parts.chars, 0, base_parts.end);
        assert(text@ =~= base@.take(base_parts.end as int));
        assert(texts(reached@).len() == reached@.len());
        if reached.len() == 0 && (name_parts.rooted || base_parts.rooted) {
            text.push('\\');
            assert(text@ =~= base@.take(base_parts.end as int) + seq!['\\']);
        } else {
            let tail = write_out(&reached);
            append_chars(&mut text, &tail);
        }
        return text_of(&text);
    }
    if name_parts.rooted {
        let mut text = slice_chars(&base_parts.chars, 0, base_parts.end);
        assert(text@ =~= base@.take(base_parts.end as int));
        append_chars(&mut text, &name_parts.chars);
        return text_of(&text);
    }
    let length: usize = base_parts.chars.len();
    let drive: bool = match base_parts.kind {
        PrefixKind::Drive => true,
        _ => false,
    };
    let mut path: String = base.to_owned();
    if length > 0 && !is_separator(style, false, base_parts.chars[length - 1]) && !(drive
        && base_parts.end == length) {
        let separator: char = match style {
            PathStyle::Unix => '/',
            PathStyle::Windows => '\\',
        };
        path.push(separator);
        assert(path@ =~= base@ + seq![main_separator(style)]);
    }
    append_text(&mut path, name);
    path
}

/// Where the last dot of a name stands.
pub open spec fn last_dot(name: Seq<char>) -> Option<int>
    decreases name.len(),
{
    if name.len() == 0 {
        None
    } else if name.last() == '.' {
        Some(name.len() - 1)
    } else {
        last_dot(name.drop_last())
    }
}

/// Where the extension of a name is split off: at the last dot, unless that is the first
/// character.
pub open spec fn extension_dot(name: Seq<char>) -> Option<int> {
    if name == seq!['.', '.'] {
        None
    } else {
        match last_dot(name) {
            Some(at) => if at > 0 {
                Some(at)
            } else {
                None
            },
            None => None,
        }
    }
}

/// The name without its extension.
pub open spec fn stem_of(name: Seq<char>) -> Seq<char> {
    match extension_dot(name) {
        Some(at) => name.take(at),
        None => name,
    }
}

/// The extension of the name, if it has one.
pub open spec fn extension_of(name: Seq<char>) -> Option<Seq<char>> {
    match extension_dot(name) {
        Some(at) => Some(name.skip(at + 1)),
        None => None,
    }
}

proof fn lemma_last_dot(name: Seq<char>, at: int)
    requires
        0 <= at < name.len(),
        name[at] == '.',
        forall|i: int| at < i < name.len() ==> name[i] != '.',
    ensures
        last_dot(name) == Some(at),
    decreases name.len(),
{
    if at < name.len() - 1 {
        assert(name[name.len() - 1] != '.');
        lemma_last_dot(name.drop_last(), at);
    }
}

proof fn lemma_no_dot(name: Seq<char>)
    requires
        forall|i: int| 0 <= i < name.len() ==> name[i] != '.',
    ensures
        last_dot(name) is None,
    decreases name.len(),
{
    if name.len() > 0 {
        assert(name[name.len() - 1] != '.');
        lemma_no_dot(name.drop_last());
    }
}

fn find_last_dot(name: &Vec<char>) -> (at: Option<usize>)
    ensures
        match at {
            Some(i) => last_dot(name@) == Some(i as int) && i < name.len(),
            None => last_dot(name@) is None,
        },
{
    let mut index: usize = name.len();
    while index > 0
        invariant
            index <= name.len(),
            forall|i: int| index <= i < name.len() ==> name@[i] != '.',
        decreases index,
    {
        index -= 1;
        if name[index] == '.' {
            proof {
                lemma_last_dot(name@, index as int);
            }
            return Some(index);
        }
    }
    proof {
        lemma_no_dot(name@);
    }
    None
}

/// The characters of `source` from `from` up to `to`.
pub fn slice_chars(source: &Vec<char>, from: usize, to: usize) -> (part: Vec<char>)
    requires
        from <= to <= source.len(),
    ensures
        part@ == source@.subrange(from as int, to as int),
{
    let mut part: Vec<char> = Vec::new();
    let mut index: usize = from;
    while index < to
        invariant
            from <= index <= to <= source.len(),
            part@ == source@.subrange(from as int, index as int),
        decreases to - index,
    {
        part.push(source[index]);
        index += 1;
        assert(part@ =~= source@.subrange(from as int, index as int));
    }
    part
}

/// The name without its extension, and the extension if there is one.
pub fn split_extension(name: &Vec<char>) -> (parts: (Vec<char>, Option<Vec<char>>))
    ensures
        parts.0@ == stem_of(name@),
        match parts.1 {
            Some(extension) => extension_of(name@) == Some(extension@),
            None => extension_of(name@) is None,
        },
{
    if is_dot_dot(name) {
        return (copy_chars(name), None);
    }
    match find_last_dot(name) {
        Some(at) => if at > 0 {
            let stem = slice_chars(name, 0, at);
            let extension = slice_chars(name, at + 1, name.len());
            assert(stem@ =~= name@.take(at as int));
            assert(extension@ =~= name@.skip(at + 1));
            (stem, Some(extension))
        } else {
            (copy_chars(name), None)
        },
        None => (copy_chars(name), None),
    }
}

/// The name that stands in for `name` when `name` is taken: ` (index)` goes before the
/// extension. A name without a stem counts as `file`.
pub open spec fn numbered_name(style: PathStyle, name: Seq<char>, index: u32) -> Seq<char> {
    let file = file_name_of(style, name);
    let stem = match file {
        Some(text) => stem_of(text),
        None => "file"@,
    };
    let counted = stem + " ("@ + decimal_text(index as nat) + ")"@;
    match file {
        Some(text) => match extension_of(text) {
            Some(extension) => counted + "."@ + extension,
            None => counted,
        },
        None => counted,
    }
}

/// The name with ` (index)` before its extension.
pub fn number_name(style: PathStyle, name: &str, index: u32) -> (numbered: String)
    ensures
        numbered@ == numbered_name(style, name@, index),
{
    let (stem, extension) = match file_name(style, name) {
        Some(text) => {
            let (head, rest) = split_extension(&chars_of(text.as_str()));
            (text_of(&head), rest)
        },
        None => ("file".to_owned(), None),
    };
    let mut numbered: String = stem;
    append_text(&mut numbered, " (");
    append_text(&mut numbered, decimal(index as u64).as_str());
    append_text(&mut numbered, ")");
    match extension {
        Some(rest) => {
            append_text(&mut numbered, ".");
            append_text(&mut numbered, text_of(&rest).as_str());
        },
        None => {},
    }
    numbered
}

/// The numbers that are tried when a name is taken.
pub const LAST_DUPLICATE_INDEX: u32 = 99_999;

/// Which name to try next in a directory.
#[derive(Debug, Clone, PartialEq, Eq)]
pub enum NameChoice {
    /// Take this name.
    Use(String),
    /// Ask whether this name is taken; `0` stands for the name as requested.
    Probe(u32, String),
    /// Every name is taken.
    Exhausted,
}

/// The name with the given number; number zero is the name itself.
pub open spec fn nth_name(style: PathStyle, name: Seq<char>, index: u32) -> Seq<char> {
    if index == 0 {
        name
    } else {
        numbered_name(style, name, index)
    }
}

fn make_nth_name(style: PathStyle, name: &str, index: u32) -> (text: String)
    ensures
        text@ == nth_name(style, name@, index),
{
    if index == 0 {
        name.to_owned()
    } else {
        number_name(style, name, index)
    }
}

/// The first question when looking for a free name: with `overwrite` the requested name is
/// taken at once, otherwise it is asked about first.
pub fn first_name(name: &str, overwrite: bool) -> (choice: NameChoice)
    ensures
        overwrite ==> (choice matches NameChoice::Use(text) && text@ == name@),
        !overwrite ==> (choice matches NameChoice::Probe(index, text) && index == 0 && text@
            == name@),
{
    if overwrite {
        NameChoice::Use(name.to_owned())
    } else {
        NameChoice::Probe(0, name.to_owned())
    }
}

/// What follows once it is known whether the name with number `index` is taken: a free name is
/// used, a taken one gives way to the next number, and after the last number the search ends.
pub fn next_name(style: PathStyle, name: &str, index: u32, taken: bool) -> (choice: NameChoice)
    ensures
        !taken ==> (choice matches NameChoice::Use(text) && text@ == nth_name(
            style,
            name@,
            index,
        )),
        taken && index < LAST_DUPLICATE_INDEX ==> (choice matches NameChoice::Probe(next, text)
            && next == index + 1 && text@ == nth_name(style, name@, next)),
        taken && index >= LAST_DUPLICATE_INDEX ==> choice is Exhausted,
{
    if !taken {
        NameChoice::Use(make_nth_name(style, name, index))
    } else if index < LAST_DUPLICATE_INDEX {
        NameChoice::Probe(index + 1, make_nth_name(style, name, index + 1))
    } else {
        NameChoice::Exhausted
    }
}

/// Two different numbers never give the same name.
pub proof fn law_numbered_names_differ(
    style: PathStyle,
    name: Seq<char>,
    first: u32,
    second: u32,
)
    requires
        first != second,
    ensures
        numbered_name(style, name, first) != numbered_name(style, name, second),
{
    reveal_strlit("file");
    reveal_strlit(" (");
    reveal_strlit(")");
    reveal_strlit(".");
    let file = file_name_of(style, name);
    let stem = match file {
        Some(text) => stem_of(text),
        None => "file"@,
    };
    let a = decimal_text(first as nat);
    let b = decimal_text(second as nat);
    if numbered_name(style, name, first) == numbered_name(style, name, second) {
        let n = stem.len() + 2;
        let tail = match file {
            Some(text) => match extension_of(text) {
                Some(extension) => ")"@ + "."@ + extension,
                None => ")"@,
            },
            None => ")"@,
        };
        assert(numbered_name(style, name, first) =~= stem + " ("@ + a + tail);
        assert(numbered_name(style, name, second) =~= stem + " ("@ + b + tail);
        assert(a.len() == b.len());
        assert(a =~= (stem + " ("@ + a + tail).subrange(n as int, (n + a.len()) as int));
        assert(b =~= (stem + " ("@ + b + tail).subrange(n as int, (n + a.len()) as int));
        crate::text::lemma_decimal_injective(first as nat, second as nat);
    }
}

/// Which of the first `n` segments is the last component.
pub open spec fn last_component(all: Seq<Seq<char>>, dots: DotRule, n: nat) -> Option<nat>
    decreases n,
{
    if n == 0 {
        None
    } else if is_component(all, dots, n - 1) {
        Some((n - 1) as nat)
    } else {
        last_component(all, dots, (n - 1) as nat)
    }
}

/// How long the first `n` segments are with one separator behind each but the last.
pub open spec fn span(all: Seq<Seq<char>>, n: nat) -> int
    decreases n,
{
    if n == 0 {
        0
    } else if n == 1 {
        all[0].len() as int
    } else {
        span(all, (n - 1) as nat) + 1 + all[n - 1].len()
    }
}

/// Where the path of the directory that a path stands in ends.
pub open spec fn parent_end(style: PathStyle, path: Seq<char>) -> int {
    let all = path_segments(style, path);
    let dots = dot_rule(style, path);
    body_start(style, path) + match last_component(all, dots, all.len()) {
        Some(last) => match last_component(all, dots, last) {
            Some(before) => span(all, before + 1),
            None => 0,
        },
        None => 0,
    }
}

/// `path` with its file name, if it has one, replaced by `name`.
pub open spec fn renamed_path(style: PathStyle, path: Seq<char>, name: Seq<char>) -> Seq<char> {
    if file_name_of(style, path) is Some {
        joined_path(style, path.take(parent_end(style, path)), name)
    } else {
        joined_path(style, path, name)
    }
}

proof fn lemma_span_prefix(left: Seq<Seq<char>>, right: Seq<Seq<char>>, n: nat)
    requires
        n <= left.len(),
        n <= right.len(),
        forall|i: int| 0 <= i < n ==> left[i] == right[i],
    ensures
        span(left, n) == span(right, n),
    decreases n,
{
    if n > 1 {
        lemma_span_prefix(left, right, (n - 1) as nat);
    }
}

proof fn lemma_span_whole(style: PathStyle, verbatim: bool, body: Seq<char>)
    ensures
        segments(style, verbatim, body).len() > 0,
        span(segments(style, verbatim, body), segments(style, verbatim, body).len()) == body.len(),
    decreases body.len(),
{
    if body.len() > 0 {
        let before = segments(style, verbatim, body.drop_last());
        let all = segments(style, verbatim, body);
        lemma_span_whole(style, verbatim, body.drop_last());
        if separates(style, verbatim, body.last()) {
            lemma_span_prefix(before, all, before.len());
        } else {
            lemma_span_prefix(before, all, (before.len() - 1) as nat);
        }
    }
}

proof fn lemma_span_grows(all: Seq<Seq<char>>, n: nat, m: nat)
    requires
        n <= m,
    ensures
        span(all, n) <= span(all, m),
    decreases m - n,
{
    if n < m {
        lemma_span_grows(all, n, (m - 1) as nat);
    }
}

impl Parts {
    fn parent_end(&self, Ghost(style): Ghost<PathStyle>, Ghost(path): Ghost<Seq<char>>) -> (end:
        usize)
        requires
            self.are_of(style, path),
        ensures
            end == parent_end(style, path),
            end <= path.len(),
    {
        let ghost all = texts(self.segments@);
        let ghost body = body_of(style, path);
        let mut index: usize = 0;
        let mut reached: usize = 0;
        let mut last: usize = 0;
        let mut before: usize = 0;
        proof {
            lemma_span_whole(style, is_verbatim(self.kind), body);
            assert(all.len() == self.segments@.len());
            assert(body.len() == path.len() - self.start);
        }
        while index < self.segments.len()
            invariant
                index <= self.segments.len(),
                self.are_of(style, path),
                all == texts(self.segments@),
                all.len() == self.segments@.len(),
                all == path_segments(style, path),
                span(all, all.len()) == path.len() - self.start,
                reached == span(all, index as nat),
                before <= last <= reached,
                match last_component(all, self.dots, index as nat) {
                    None => last == 0 && before == 0,
                    Some(l) => l < index && last == span(all, l + 1) && before == match last_component(
                        all,
                        self.dots,
                        l,
                    ) {
                        None => 0,
                        Some(b) => span(all, b + 1),
                    },
                },
            decreases self.segments.len() - index,
        {
            proof {
                lemma_span_grows(all, (index + 1) as nat, all.len());
                assert(all[index as int] == self.segments@[index as int]@);
            }
            reached = if index == 0 {
                self.segments[0].len()
            } else {
                reached + 1 + self.segments[index].len()
            };
            if self.names(index) {
                before = last;
                last = reached;
            }
            index += 1;
        }
        self.start + before
    }
}

/// `path` with its file name replaced by `name`.
pub fn with_file_name(style: PathStyle, path: &str, name: &str) -> (renamed: String)
    ensures
        renamed@ == renamed_path(style, path@, name@),
{
    if file_name(style, path).is_none() {
        return join_path(style, path, name);
    }
    let parts = take_apart(style, path);
    let end: usize = parts.parent_end(Ghost(style), Ghost(path@));
    let parent = slice_chars(&parts.chars, 0, end);
    assert(parent@ =~= path@.take(end as int));
    join_path(style, text_of(&parent).as_str(), name)
}

/// Whether a text is the name of one entry on every system: it is not empty, it is neither one
/// dot nor two, and it holds no separator and no colon.
pub open spec fn is_plain(name: Seq<char>) -> bool {
    &&& name.len() > 0
    &&& is_normal(name)
    &&& forall|i: int|
        0 <= i < name.len() ==> #[trigger] name[i] != '/' && name[i] != '\\' && name[i] != ':'
}

/// Whether a directory starts in the same place as what is put into it. On Windows that is so of
/// relative paths, of paths on a drive and of paths on a share, but not where a name that
/// follows would become part of the prefix.
pub open spec fn keeps_start(style: PathStyle, directory: Seq<char>) -> bool {
    style is Unix || match prefix_of(style, directory).0 {
        PrefixKind::Bare => !(separator_at(directory, 0) && separator_at(directory, 1)),
        PrefixKind::Drive => true,
        PrefixKind::Share => true,
        PrefixKind::VerbatimDrive => is_rooted(style, directory),
        PrefixKind::VerbatimShare => is_rooted(style, directory) && share_end(directory, 8, true).1
            > stretch_end(directory, 8, true),
        PrefixKind::Device => false,
        PrefixKind::Verbatim => false,
    }
}

proof fn lemma_stretch(path: Seq<char>, from: int, verbatim: bool)
    requires
        0 <= from <= path.len(),
    ensures
        from <= stretch_end(path, from, verbatim) <= path.len(),
        forall|i: int|
            from <= i < stretch_end(path, from, verbatim) ==> !separates(
                PathStyle::Windows,
                verbatim,
                #[trigger] path[i],
            ),
        stretch_end(path, from, verbatim) < path.len() ==> separates(
            PathStyle::Windows,
            verbatim,
            path[stretch_end(path, from, verbatim)],
        ),
    decreases path.len() - from,
{
    if from < path.len() && !separates(PathStyle::Windows, verbatim, path[from]) {
        lemma_stretch(path, from + 1, verbatim);
    }
}

proof fn lemma_stretch_at(path: Seq<char>, from: int, at: int, verbatim: bool)
    requires
        0 <= from <= at <= path.len(),
        forall|i: int| from <= i < at ==> !separates(PathStyle::Windows, verbatim, #[trigger] path[i]),
        at == path.len() || separates(PathStyle::Windows, verbatim, path[at]),
    ensures
        stretch_end(path, from, verbatim) == at,
    decreases path.len() - from,
{
    if from < at {
        assert(!separates(PathStyle::Windows, verbatim, path[from]));
        lemma_stretch_at(path, from + 1, at, verbatim);
    }
}

proof fn lemma_prefix_end(style: PathStyle, path: Seq<char>)
    ensures
        0 <= prefix_of(style, path).1 <= path.len(),
        prefix_of(style, path).0 is Share ==> prefix_of(style, path).1 > 2,
        prefix_of(style, path).0 is Device || prefix_of(style, path).0 is Verbatim ==> prefix_of(
            style,
            path,
        ).1 >= 4,
        prefix_of(style, path).0 is VerbatimShare ==> prefix_of(style, path).1 >= 8,
        implies_root(prefix_of(style, path).0) ==> style is Windows && (prefix_of(style, path).1
            == path.len() || separates(style, false, path[prefix_of(style, path).1])),
{
    if style is Windows {
        if path.len() >= 2 {
            lemma_stretch(path, 2, false);
            let server = stretch_end(path, 2, false);
            if server < path.len() {
                lemma_stretch(path, server + 1, false);
            }
        }
        if path.len() >= 4 {
            lemma_stretch(path, 4, true);
            lemma_stretch(path, 4, false);
        }
        if path.len() >= 8 {
            lemma_stretch(path, 8, true);
            let server = stretch_end(path, 8, true);
            if server < path.len() {
                lemma_stretch(path, server + 1, true);
            }
        }
    }
}

proof fn lemma_prefix_name_len(style: PathStyle, path: Seq<char>)
    ensures
        prefix_of(style, path).1 == match prefix_of(style, path).0 {
            PrefixKind::Bare => 0,
            PrefixKind::Drive => 2,
            PrefixKind::Share => prefix_name(style, path).len() + 2,
            PrefixKind::Device => prefix_name(style, path).len() + 4,
            PrefixKind::Verbatim => prefix_name(style, path).len() + 4,
            PrefixKind::VerbatimDrive => 6,
            PrefixKind::VerbatimShare => prefix_name(style, path).len() + 8,
        },
{
    lemma_prefix_end(style, path);
}

proof fn lemma_same_prefix_end(style: PathStyle, left: Seq<char>, right: Seq<char>)
    requires
        prefix_of(style, left).0 == prefix_of(style, right).0,
        prefix_name(style, left) == prefix_name(style, right),
    ensures
        prefix_of(style, left).1 == prefix_of(style, right).1,
{
    lemma_prefix_name_len(style, left);
    lemma_prefix_name_len(style, right);
}

proof fn lemma_segments_nonempty(style: PathStyle, verbatim: bool, body: Seq<char>)
    ensures
        segments(style, verbatim, body).len() > 0,
    decreases body.len(),
{
    if body.len() > 0 {
        lemma_segments_nonempty(style, verbatim, body.drop_last());
    }
}

proof fn lemma_name_segment(style: PathStyle, verbatim: bool, base: Seq<char>, name: Seq<char>)
    requires
        forall|i: int| 0 <= i < name.len() ==> !separates(style, verbatim, #[trigger] name[i]),
    ensures
        segments(style, verbatim, base).len() > 0,
        segments(style, verbatim, base + name) == segments(style, verbatim, base).drop_last().push(
            segments(style, verbatim, base).last() + name,
        ),
    decreases name.len(),
{
    lemma_segments_nonempty(style, verbatim, base);
    let old = segments(style, verbatim, base);
    if name.len() == 0 {
        assert(base + name =~= base);
        assert(old.last() + name =~= old.last());
        assert(old.drop_last().push(old.last()) =~= old);
    } else {
        let head = name.drop_last();
        assert forall|i: int| 0 <= i < head.len() implies !separates(
            style,
            verbatim,
            #[trigger] head[i],
        ) by {
            assert(head[i] == name[i]);
        }
        lemma_name_segment(style, verbatim, base, head);
        assert(!separates(style, verbatim, name[name.len() - 1]));
        assert((base + name).drop_last() =~= base + head);
        assert((base + name).last() == name.last());
        let before = segments(style, verbatim, base + head);
        assert(before.drop_last() =~= old.drop_last());
        assert(before.last() == old.last() + head);
        assert((old.last() + head).push(name.last()) =~= old.last() + name);
    }
}

proof fn lemma_kept_prefix(left: Seq<Seq<char>>, right: Seq<Seq<char>>, dots: DotRule, n: nat)
    requires
        n <= left.len(),
        n <= right.len(),
        forall|i: int| 0 <= i < n ==> left[i] == right[i],
    ensures
        kept(left, dots, n) == kept(right, dots, n),
    decreases n,
{
    if n > 0 {
        lemma_kept_prefix(left, right, dots, (n - 1) as nat);
        assert(left[n - 1] == right[n - 1]);
        assert(is_component(left, dots, n - 1) == is_component(right, dots, n - 1));
    }
}

proof fn lemma_plain_has_no_separator(style: PathStyle, verbatim: bool, name: Seq<char>)
    requires
        is_plain(name),
    ensures
        forall|i: int| 0 <= i < name.len() ==> !separates(style, verbatim, #[trigger] name[i]),
{
}

proof fn lemma_plain_parts(style: PathStyle, name: Seq<char>)
    requires
        is_plain(name),
    ensures
        prefix_of(style, name) == (PrefixKind::Bare, 0int),
        !is_rooted(style, name),
        !takes_over(style, name),
        components_of(style, name) == seq![name],
{
    lemma_plain_has_no_separator(style, false, name);
    assert(name[0] != '/' && name[0] != '\\');
    if name.len() > 1 {
        assert(name[1] != ':');
    }
    let none = Seq::<char>::empty();
    lemma_name_segment(style, false, none, name);
    assert(none + name =~= name);
    assert(segments(style, false, none) =~= seq![none]);
    assert(segments(style, false, none).last() + name =~= name);
    assert(name.skip(0) =~= name);
    let all = path_segments(style, name);
    assert(all =~= seq![name]);
    assert(is_component(all, dot_rule(style, name), 0));
    assert(kept(all, dot_rule(style, name), 0) =~= Seq::empty());
    assert(kept(all, dot_rule(style, name), 1) =~= seq![name]);
}

/// The components of a body, with a name added to it behind a separator where one is needed.
proof fn lemma_longer_body(style: PathStyle, dots: DotRule, body: Seq<char>, name: Seq<char>)
    requires
        is_plain(name),
    ensures
        ({
            let longer = if body.len() == 0 || separates(style, false, body.last()) {
                body + name
            } else {
                body + seq![main_separator(style)] + name
            };
            let old = segments(style, false, body);
            let all = segments(style, false, longer);
            kept(all, dots, all.len()) == kept(old, dots, old.len()).push(name)
        }),
{
    lemma_plain_has_no_separator(style, false, name);
    let old = segments(style, false, body);
    lemma_segments_nonempty(style, false, body);
    let n = old.len();
    if body.len() == 0 || separates(style, false, body.last()) {
        lemma_name_segment(style, false, body, name);
        let all = segments(style, false, body + name);
        assert(old.last().len() == 0);
        assert(old.last() + name =~= name);
        assert(all.len() == n && all[n - 1] == name);
        lemma_kept_prefix(old, all, dots, (n - 1) as nat);
        assert(is_component(all, dots, n - 1));
        assert(!is_component(old, dots, n - 1));
    } else {
        let base = body + seq![main_separator(style)];
        assert(base.drop_last() =~= body);
        assert(segments(style, false, base) =~= old.push(Seq::empty()));
        lemma_name_segment(style, false, base, name);
        let all = segments(style, false, base + name);
        assert(segments(style, false, base).drop_last() =~= old);
        assert(segments(style, false, base).last() + name =~= name);
        assert(all.len() == n + 1 && all[n as int] == name);
        lemma_kept_prefix(old, all, dots, n);
        assert(is_component(all, dots, n as int));
    }
}

proof fn lemma_child_of_written(style: PathStyle, directory: Seq<char>, name: Seq<char>)
    requires
        is_plain(name),
        !is_verbatim(prefix_of(style, directory).0),
        same_start(style, joined_path(style, directory, name), directory),
    ensures
        components_of(style, joined_path(style, directory, name)) == components_of(
            style,
            directory,
        ).push(name),
{
    lemma_plain_parts(style, name);
    lemma_plain_has_no_separator(style, false, name);
    let joined = joined_path(style, directory, name);
    lemma_same_prefix_end(style, joined, directory);
    lemma_prefix_end(style, directory);
    let (kind, end) = prefix_of(style, directory);
    let dots = dot_rule(style, directory);
    let none = Seq::<char>::empty();
    assert(name[0] != '/' && name[0] != '\\');
    if end == directory.len() {
        assert(body_of(style, directory) =~= none);
        lemma_longer_body(style, dots, none, name);
        assert(none + name =~= name);
        if needs_no_separator(style, directory) {
            assert(joined[end] == name[0]);
            assert(body_of(style, joined) =~= name);
        } else {
            assert(joined[end] == main_separator(style));
            assert(body_of(style, joined) =~= name);
        }
        assert(has_root(style, joined) == has_root(style, directory)) by {
            assert(is_rooted(style, directory) == false);
        }
    } else {
        assert(joined[end] == directory[end]);
        assert(is_rooted(style, joined) == is_rooted(style, directory));
        let start = body_start(style, directory);
        let body = body_of(style, directory);
        lemma_longer_body(style, dots, body, name);
        if body.len() > 0 {
            assert(body.last() == directory.last());
        }
        if needs_no_separator(style, directory) {
            assert(body_of(style, joined) =~= body + name);
        } else {
            assert(body_of(style, joined) =~= body + seq![main_separator(style)] + name);
        }
    }
}

proof fn lemma_segments_clean(style: PathStyle, verbatim: bool, body: Seq<char>)
    ensures
        forall|i: int, k: int|
            0 <= i < segments(style, verbatim, body).len() && 0 <= k < segments(
                style,
                verbatim,
                body,
            )[i].len() ==> !separates(
                style,
                verbatim,
                #[trigger] segments(style, verbatim, body)[i][k],
            ),
    decreases body.len(),
{
    if body.len() > 0 {
        lemma_segments_nonempty(style, verbatim, body.drop_last());
        lemma_segments_clean(style, verbatim, body.drop_last());
        let before = segments(style, verbatim, body.drop_last());
        let all = segments(style, verbatim, body);
        assert forall|i: int, k: int| 0 <= i < all.len() && 0 <= k < all[i].len() implies !separates(
            style,
            verbatim,
            #[trigger] all[i][k],
        ) by {
            if i < before.len() && k < before[i].len() {
                assert(all[i][k] == before[i][k]);
            }
        }
    }
}

/// Whether a text is a component where only backslashes separate.
spec fn is_stretch(text: Seq<char>) -> bool {
    text.len() > 0 && forall|k: int| 0 <= k < text.len() ==> #[trigger] text[k] != '\\'
}

proof fn lemma_kept_are_stretches(all: Seq<Seq<char>>, dots: DotRule, n: nat)
    requires
        n <= all.len(),
        forall|i: int, k: int|
            0 <= i < all.len() && 0 <= k < all[i].len() ==> !separates(
                PathStyle::Windows,
                true,
                #[trigger] all[i][k],
            ),
    ensures
        forall|i: int| 0 <= i < kept(all, dots, n).len() ==> is_stretch(#[trigger] kept(all, dots, n)[i]),
    decreases n,
{
    if n > 0 {
        lemma_kept_are_stretches(all, dots, (n - 1) as nat);
        if is_component(all, dots, n - 1) {
            assert forall|k: int| 0 <= k < all[n - 1].len() implies #[trigger] all[n - 1][k]
                != '\\' by {
                assert(!separates(PathStyle::Windows, true, all[n - 1][k]));
            }
            assert(is_stretch(all[n - 1]));
        }
        let before = kept(all, dots, (n - 1) as nat);
        let now = kept(all, dots, n);
        assert forall|i: int| 0 <= i < now.len() implies is_stretch(#[trigger] now[i]) by {
            if i < before.len() {
                assert(now[i] == before[i]);
            }
        }
    }
}

proof fn lemma_all_kept(all: Seq<Seq<char>>, n: nat)
    requires
        n <= all.len(),
        forall|i: int| 0 <= i < all.len() ==> is_stretch(#[trigger] all[i]),
    ensures
        kept(all, DotRule::All, n) == all.take(n as int),
    decreases n,
{
    if n > 0 {
        lemma_all_kept(all, (n - 1) as nat);
        assert(is_stretch(all[n - 1]));
        assert(all.take(n as int) =~= all.take(n - 1).push(all[n - 1]));
    } else {
        assert(all.take(0) =~= Seq::empty());
    }
}

proof fn lemma_written_out(list: Seq<Seq<char>>)
    requires
        list.len() > 0,
        forall|i: int| 0 <= i < list.len() ==> is_stretch(#[trigger] list[i]),
    ensures
        written_out(list).len() > 0,
        written_out(list)[0] == '\\',
        segments(PathStyle::Windows, true, written_out(list).skip(1)) == list,
    decreases list.len(),
{
    let style = PathStyle::Windows;
    let head = list.drop_last();
    let last = list.last();
    assert(is_stretch(list[list.len() - 1]));
    assert forall|i: int| 0 <= i < last.len() implies !separates(style, true, #[trigger] last[i]) by {
        assert(last[i] != '\\');
    }
    if head.len() == 0 {
        let none = Seq::<char>::empty();
        assert(written_out(head) =~= none);
        assert(written_out(list).skip(1) =~= last);
        lemma_name_segment(style, true, none, last);
        assert(none + last =~= last);
        assert(segments(style, true, none).last() + last =~= last);
        assert(seq![last] =~= list);
    } else {
        assert forall|i: int| 0 <= i < head.len() implies is_stretch(#[trigger] head[i]) by {
            assert(head[i] == list[i]);
        }
        lemma_written_out(head);
        let base = written_out(head).skip(1) + seq!['\\'];
        assert(base.drop_last() =~= written_out(head).skip(1));
        assert(base.last() == '\\');
        assert(segments(style, true, base) == head.push(Seq::empty()));
        lemma_name_segment(style, true, base, last);
        assert(segments(style, true, base).drop_last() =~= head);
        assert(segments(style, true, base).last() + last =~= last);
        assert(written_out(list).skip(1) =~= base + last);
        assert(head.push(last) =~= list);
        assert(written_out(list)[0] == written_out(head)[0]);
    }
}

/// What is put into a directory whose path is taken as it is.
proof fn lemma_verbatim_join(directory: Seq<char>, name: Seq<char>)
    requires
        is_plain(name),
        is_verbatim(prefix_of(PathStyle::Windows, directory).0),
    ensures
        ({
            let style = PathStyle::Windows;
            let end = prefix_of(style, directory).1;
            let list = components_of(style, directory).push(name);
            let joined = joined_path(style, directory, name);
            &&& joined == directory.take(end) + written_out(list)
            &&& joined.len() > end
            &&& joined[end] == '\\'
            &&& forall|i: int| 0 <= i < end ==> #[trigger] joined[i] == directory[i]
            &&& segments(style, true, joined.skip(end + 1)) == list
            &&& kept(list, DotRule::All, list.len()) == list
        }),
{
    let style = PathStyle::Windows;
    lemma_plain_parts(style, name);
    lemma_prefix_end(style, directory);
    let end = prefix_of(style, directory).1;
    let own = components_of(style, directory);
    let list = own.push(name);
    let steps = seq![name];
    assert(walked(own, steps, 0) == own);
    assert(walked(own, steps, 1) == list);
    let all = path_segments(style, directory);
    lemma_segments_clean(style, true, body_of(style, directory));
    lemma_kept_are_stretches(all, dot_rule(style, directory), all.len());
    assert(is_stretch(name));
    assert forall|i: int| 0 <= i < list.len() implies is_stretch(#[trigger] list[i]) by {
        if i < own.len() {
            assert(list[i] == own[i]);
        }
    }
    lemma_written_out(list);
    lemma_all_kept(list, list.len());
    assert(list.take(list.len() as int) =~= list);
    let joined = joined_path(style, directory, name);
    assert(joined == directory.take(end) + written_out(list));
    assert(joined.skip(end + 1) =~= written_out(list).skip(1));
}

proof fn lemma_start_is_kept(style: PathStyle, directory: Seq<char>, name: Seq<char>)
    requires
        is_plain(name),
        keeps_start(style, directory),
    ensures
        same_start(style, joined_path(style, directory, name), directory),
{
    lemma_plain_parts(style, name);
    lemma_prefix_end(style, directory);
    assert(name[0] != '/' && name[0] != '\\' && name[0] != ':');
    if name.len() > 1 {
        assert(name[1] != ':');
    }
    let joined = joined_path(style, directory, name);
    let (kind, end) = prefix_of(style, directory);
    let n = directory.len() as int;
    if is_verbatim(kind) {
        lemma_verbatim_join(directory, name);
        if kind is VerbatimShare {
            let server = stretch_end(directory, 8, true);
            lemma_stretch(directory, 8, true);
            lemma_stretch(directory, server + 1, true);
            assert forall|i: int| 8 <= i < server implies !separates(style, true, #[trigger] joined[i]) by {
                assert(joined[i] == directory[i]);
            }
            assert(joined[server] == directory[server]);
            lemma_stretch_at(joined, 8, server, true);
            assert forall|i: int| server + 1 <= i < end implies !separates(
                style,
                true,
                #[trigger] joined[i],
            ) by {
                assert(joined[i] == directory[i]);
            }
            lemma_stretch_at(joined, server + 1, end, true);
            assert(joined.subrange(8, end) =~= directory.subrange(8, end));
        } else {
            assert(joined[0] == directory[0] && joined[1] == directory[1] && joined[2]
                == directory[2] && joined[3] == directory[3] && joined[4] == directory[4]
                && joined[5] == directory[5]);
        }
    } else {
        assert forall|i: int| 0 <= i < n implies #[trigger] joined[i] == directory[i] by {}
        if needs_no_separator(style, directory) {
            assert(joined[n] == name[0]);
            if name.len() > 1 {
                assert(joined[n + 1] == name[1]);
            }
        } else {
            assert(joined[n] == main_separator(style));
        }
        if kind is Share {
            let server = stretch_end(directory, 2, false);
            lemma_stretch(directory, 2, false);
            lemma_stretch(directory, server + 1, false);
            assert forall|i: int| 2 <= i < server implies !separates(style, false, #[trigger] joined[i]) by {
                assert(joined[i] == directory[i]);
            }
            assert(joined[server] == directory[server]);
            lemma_stretch_at(joined, 2, server, false);
            assert forall|i: int| server + 1 <= i < end implies !separates(
                style,
                false,
                #[trigger] joined[i],
            ) by {
                assert(joined[i] == directory[i]);
            }
            if end == n {
                assert(directory[n - 1] == joined[n - 1]);
            }
            lemma_stretch_at(joined, server + 1, end, false);
            assert(prefix_name(style, joined) =~= prefix_name(style, directory));
        }
    }
}

/// A plain name that is put into a directory stands directly in it and is the file name of the
/// path, as long as the path still starts where the directory does; and it does so in every
/// directory of Unix and in the directories of Windows that keep their start.
pub proof fn law_joined_names_are_children(
    style: PathStyle,
    directory: Seq<char>,
    name: Seq<char>,
)
    requires
        is_plain(name),
    ensures
        ({
            let joined = joined_path(style, directory, name);
            &&& is_child_of(style, joined, directory) == same_start(style, joined, directory)
            &&& same_start(style, joined, directory) ==> file_name_of(style, joined) == Some(name)
            &&& keeps_start(style, directory) ==> same_start(style, joined, directory)
        }),
{
    let joined = joined_path(style, directory, name);
    if keeps_start(style, directory) {
        lemma_start_is_kept(style, directory, name);
    }
    if same_start(style, joined, directory) {
        let (kind, end) = prefix_of(style, directory);
        let own = components_of(style, directory);
        if is_verbatim(kind) {
            lemma_verbatim_join(directory, name);
            lemma_same_prefix_end(style, joined, directory);
        } else {
            lemma_child_of_written(style, directory, name);
        }
        assert(components_of(style, joined) == own.push(name));
        assert(own.push(name).drop_last() =~= own);
    }
}

proof fn lemma_parts_of_beginning(body: Seq<char>, m: nat)
    requires
        1 <= m <= segments(PathStyle::Unix, false, body).len(),
    ensures
        0 <= span(segments(PathStyle::Unix, false, body), m) <= body.len(),
        segments(
            PathStyle::Unix,
            false,
            body.take(span(segments(PathStyle::Unix, false, body), m)),
        ) == segments(PathStyle::Unix, false, body).take(m as int),
    decreases body.len(),
{
    let style = PathStyle::Unix;
    let all = segments(style, false, body);
    lemma_span_whole(style, false, body);
    if m == all.len() {
        assert(body.take(body.len() as int) =~= body);
        assert(all.take(m as int) =~= all);
    } else {
        let shorter = body.drop_last();
        let before = segments(style, false, shorter);
        assert forall|i: int| 0 <= i < m implies all[i] == before[i] by {}
        lemma_span_prefix(all, before, m);
        lemma_parts_of_beginning(shorter, m);
        assert(body.take(span(all, m)) =~= shorter.take(span(all, m)));
        assert(all.take(m as int) =~= before.take(m as int));
    }
}

proof fn lemma_kept_of_beginning(left: Seq<Seq<char>>, right: Seq<Seq<char>>, dots: DotRule, n: nat)
    requires
        n <= left.len(),
        n <= right.len(),
        forall|i: int| 0 <= i < n ==> left[i] == right[i],
    ensures
        kept(left, dots, n) == kept(right, dots, n),
    decreases n,
{
    if n > 0 {
        lemma_kept_of_beginning(left, right, dots, (n - 1) as nat);
        assert(left[n - 1] == right[n - 1]);
    }
}

proof fn lemma_kept_to_last(all: Seq<Seq<char>>, dots: DotRule, n: nat)
    requires
        n <= all.len(),
    ensures
        match last_component(all, dots, n) {
            Some(last) => last < n && is_component(all, dots, last as int) && kept(all, dots, n)
                == kept(all, dots, last).push(all[last as int]),
            None => kept(all, dots, n).len() == 0,
        },
    decreases n,
{
    if n > 0 {
        lemma_kept_to_last(all, dots, (n - 1) as nat);
    }
}

/// On Unix a file that is renamed stays where it is: only the last part of its path is another.
/// A path without a file name gets the name as one more part.
pub proof fn law_renamed_files_stay_in_their_directory(path: Seq<char>, name: Seq<char>)
    requires
        is_plain(name),
    ensures
        ({
            let renamed = renamed_path(PathStyle::Unix, path, name);
            let parts = components_of(PathStyle::Unix, path);
            &&& file_name_of(PathStyle::Unix, renamed) == Some(name)
            &&& file_name_of(PathStyle::Unix, path) is Some ==> components_of(
                PathStyle::Unix,
                renamed,
            ) == parts.drop_last().push(name)
            &&& file_name_of(PathStyle::Unix, path) is None ==> components_of(
                PathStyle::Unix,
                renamed,
            ) == parts.push(name)
            &&& is_absolute_path(PathStyle::Unix, renamed) == is_absolute_path(
                PathStyle::Unix,
                path,
            )
        }),
{
    let style = PathStyle::Unix;
    let renamed = renamed_path(style, path, name);
    let all = path_segments(style, path);
    let dots = dot_rule(style, path);
    let body = body_of(style, path);
    let directory = if file_name_of(style, path) is Some {
        path.take(parent_end(style, path))
    } else {
        path
    };
    law_joined_names_are_children(style, directory, name);
    if file_name_of(style, path) is Some {
        let start = body_start(style, path);
        lemma_span_whole(style, false, body);
        lemma_kept_to_last(all, dots, all.len());
        let last = last_component(all, dots, all.len())->Some_0;
        lemma_kept_to_last(all, dots, last);
        let inner = match last_component(all, dots, last) {
            Some(before) => span(all, before + 1),
            None => 0,
        };
        if let Some(before) = last_component(all, dots, last) {
            lemma_parts_of_beginning(body, before + 1);
        }
        assert(directory.skip(start) =~= body.take(inner));
        assert(is_rooted(style, directory) == is_rooted(style, path));
        let own = path_segments(style, directory);
        match last_component(all, dots, last) {
            Some(before) => {
                lemma_kept_of_beginning(own, all, dots, before + 1);
                lemma_kept_to_last(all, dots, before + 1);
                assert(components_of(style, directory) == kept(all, dots, last));
            },
            None => {
                assert(body.take(0) =~= Seq::<char>::empty());
                assert(own =~= seq![Seq::<char>::empty()]);
                assert(kept(own, dots, 1) =~= kept(own, dots, 0));
                assert(components_of(style, directory) =~= kept(all, dots, last));
            },
        }
        assert(components_of(style, path).drop_last() =~= components_of(style, directory));
    }
}

/// A path with a place of its own replaces what it is put below.
pub proof fn law_absolute_paths_take_over(style: PathStyle, base: Seq<char>, path: Seq<char>)
    requires
        is_absolute_path(style, path),
    ensures
        joined_path(style, base, path) == path,
{
}

/// The three files that a stored record rotates through.
#[derive(Debug, Clone, PartialEq, Eq)]
pub struct GenerationPaths {
    pub current: String,
    pub previous: String,
    pub pending: String,
}

/// The path without a closing `.current`.
pub open spec fn generation_base(path: Seq<char>) -> Seq<char> {
    if crate::text::ends_with_text(path, ".current"@) {
        path.take(path.len() - ".current"@.len())
    } else {
        path
    }
}

/// The files that the record at `path` rotates through.
pub fn generation_paths(path: &str) -> (paths: GenerationPaths)
    ensures
        paths.current@ == path@,
        paths.previous@ == generation_base(path@) + ".previous"@,
        paths.pending@ == generation_base(path@) + ".pending"@,
{
    let base: String = match crate::text::strip_suffix(path, ".current") {
        Some(head) => head,
        None => path.to_owned(),
    };
    GenerationPaths {
        current: path.to_owned(),
        previous: crate::text::joined(base.as_str(), ".previous"),
        pending: crate::text::joined(base.as_str(), ".pending"),
    }
}

} // verus!
