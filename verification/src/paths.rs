//! Paths as text: the parts of a relative path, and the extension of what it names.

use crate::model::Model;
use crate::text;
use crate::text::same;
use vstd::prelude::*;

verus! {

/// How paths are read: where Windows runs, a backslash stands between parts as well, and a path may
/// begin with a drive.
#[derive(Clone, Copy, Debug, PartialEq, Eq, Structural)]
pub enum PathStyle {
    Unix,
    Windows,
}

impl DeepView for PathStyle {
    type V = PathStyle;

    open spec fn deep_view(&self) -> PathStyle {
        *self
    }
}

impl Model for PathStyle {
    fn copy_of(&self) -> (r: Self) {
        *self
    }

    fn same_as(&self, other: &Self) -> (r: bool) {
        *self == *other
    }
}

/// A part of a path.
#[derive(Clone, Debug, PartialEq, Eq)]
pub enum PathPart {
    /// An ordinary name.
    Normal(String),
    /// A root, a drive, or a step to the same or the parent directory.
    Other,
}

/// What a `PathPart` stands for.
#[verifier::ext_equal]
pub enum PathPartView {
    Normal(Seq<char>),
    Other,
}

impl DeepView for PathPart {
    type V = PathPartView;

    open spec fn deep_view(&self) -> PathPartView {
        match self {
            PathPart::Normal(value) => PathPartView::Normal(value.deep_view()),
            PathPart::Other => PathPartView::Other,
        }
    }
}

/// The character stands between the parts of a path.
pub open spec fn parts_at(c: char, style: PathStyle) -> bool {
    c == '/' || (style == PathStyle::Windows && c == '\\')
}

/// A path begins with a root or a drive.
pub open spec fn rooted(path: Seq<char>, style: PathStyle) -> bool {
    ||| path.len() > 0 && parts_at(path[0], style)
    ||| style == PathStyle::Windows && path.len() >= 2 && ('a' <= path[0] <= 'z' || 'A' <= path[0]
        <= 'Z') && path[1] == ':'
}

/// Where the first piece of a path ends: before the first separator, or at its end.
pub open spec fn piece_end(path: Seq<char>, style: PathStyle) -> nat
    decreases path.len(),
{
    if path.len() == 0 || parts_at(path[0], style) {
        0
    } else {
        1 + piece_end(path.drop_first(), style)
    }
}

/// What is left of a path after its first piece.
pub open spec fn after_piece(path: Seq<char>, style: PathStyle) -> Seq<char> {
    let end = piece_end(path, style) as int;
    if end < path.len() {
        path.skip(end + 1)
    } else {
        Seq::empty()
    }
}

/// The part that a piece of a path is, if it is one: nothing between two separators is no part, nor
/// is a `.` but at the beginning.
pub open spec fn part_of(piece: Seq<char>, first: bool) -> Option<PathPartView> {
    if piece.len() == 0 {
        None
    } else if piece == seq!['.'] {
        if first {
            Some(PathPartView::Other)
        } else {
            None
        }
    } else if piece == seq!['.', '.'] {
        Some(PathPartView::Other)
    } else {
        Some(PathPartView::Normal(piece))
    }
}

/// The parts of a path that begins with no root and no drive. `first` says whether it is looked at
/// from its beginning.
pub open spec fn listed_parts(path: Seq<char>, style: PathStyle, first: bool) -> Seq<PathPartView>
    decreases path.len(),
{
    if path.len() == 0 {
        Seq::empty()
    } else {
        let rest = listed_parts(after_piece(path, style), style, false);
        match part_of(path.take(piece_end(path, style) as int), first) {
            Some(part) => seq![part] + rest,
            None => rest,
        }
    }
}

/// The parts of a path. What follows a root or a drive is not looked at.
pub open spec fn parts_of(path: Seq<char>, style: PathStyle) -> Seq<PathPartView> {
    if rooted(path, style) {
        seq![PathPartView::Other]
    } else {
        listed_parts(path, style, true)
    }
}

/// Every part is an ordinary name.
pub open spec fn only_names(parts: Seq<PathPartView>) -> bool {
    forall|i: int| 0 <= i < parts.len() ==> (#[trigger] parts[i]) is Normal
}

/// The name that parts begin with, or nothing.
pub open spec fn root_name(parts: Seq<PathPartView>) -> Seq<char> {
    if parts.len() > 0 {
        match parts[0] {
            PathPartView::Normal(name) => name,
            PathPartView::Other => Seq::empty(),
        }
    } else {
        Seq::empty()
    }
}

/// The position of the last dot of a name, or -1.
pub open spec fn last_dot(name: Seq<char>) -> int
    decreases name.len(),
{
    if name.len() == 0 {
        -1
    } else if name.last() == '.' {
        name.len() - 1
    } else {
        last_dot(name.drop_last())
    }
}

/// The extension of a name: what follows its last dot, unless it has none but at its beginning.
pub open spec fn extension(name: Seq<char>) -> Option<Seq<char>> {
    if last_dot(name) > 0 {
        Some(name.skip(last_dot(name) + 1))
    } else {
        None
    }
}

/// The extension of what parts name.
pub open spec fn extension_of(parts: Seq<PathPartView>) -> Option<Seq<char>> {
    if parts.len() > 0 && parts.last() is Normal {
        extension(parts.last()->Normal_0)
    } else {
        None
    }
}

pub(crate) proof fn lemma_piece_end(path: Seq<char>, style: PathStyle)
    ensures
        piece_end(path, style) <= path.len(),
        piece_end(path, style) < path.len() ==> parts_at(path[piece_end(path, style) as int], style),
        forall|i: int| 0 <= i < piece_end(path, style) ==> !parts_at(#[trigger] path[i], style),
    decreases path.len(),
{
    if path.len() > 0 && !parts_at(path[0], style) {
        let rest = path.drop_first();
        lemma_piece_end(rest, style);
        assert forall|i: int| 0 <= i < piece_end(path, style) implies !parts_at(
            #[trigger] path[i],
            style,
        ) by {
            if i > 0 {
                assert(path[i] == rest[i - 1]);
            }
        }
    }
}

fn is_break(c: char, style: PathStyle) -> (r: bool)
    ensures
        r == parts_at(c, style),
{
    c == '/' || (style == PathStyle::Windows && c == '\\')
}

fn is_rooted(path: &Vec<char>, style: PathStyle) -> (r: bool)
    ensures
        r == rooted(path@, style),
{
    (path.len() > 0 && is_break(path[0], style)) || (style == PathStyle::Windows && path.len() >= 2
        && (('a' <= path[0] && path[0] <= 'z') || ('A' <= path[0] && path[0] <= 'Z')) && path[1]
        == ':')
}

fn find_piece_end(path: &Vec<char>, from: usize, style: PathStyle) -> (r: usize)
    requires
        from <= path@.len(),
    ensures
        from <= r <= path@.len(),
        r == from + piece_end(path@.skip(from as int), style),
{
    let mut end: usize = from;
    while end < path.len() && !is_break(path[end], style)
        invariant
            from <= end <= path@.len(),
            from + piece_end(path@.skip(from as int), style) == end + piece_end(
                path@.skip(end as int),
                style,
            ),
        decreases path@.len() - end,
    {
        assert(path@.skip(end as int).drop_first() =~= path@.skip(end + 1));
        end += 1;
    }
    end
}

fn find_part(piece: &str, first: bool) -> (r: Option<PathPart>)
    ensures
        match r {
            Some(part) => part_of(piece@, first) == Some(part.deep_view()),
            None => part_of(piece@, first) is None,
        },
{
    proof {
        reveal_strlit(".");
        reveal_strlit("..");
        assert("."@ =~= seq!['.']);
        assert(".."@ =~= seq!['.', '.']);
    }
    if piece.is_empty() {
        None
    } else if same(piece, ".") {
        if first {
            Some(PathPart::Other)
        } else {
            None
        }
    } else if same(piece, "..") {
        Some(PathPart::Other)
    } else {
        Some(PathPart::Normal(piece.to_owned()))
    }
}

/// Lists the parts of a path.
pub fn find_parts(path: &str, style: PathStyle) -> (r: Vec<PathPart>)
    ensures
        r.deep_view() == parts_of(path@, style),
{
    let chars = text::chars_of(path);
    let mut out: Vec<PathPart> = Vec::new();
    if is_rooted(&chars, style) {
        out.push(PathPart::Other);
        assert(out.deep_view() =~= seq![PathPartView::Other]);
        return out;
    }
    let mut at: usize = 0;
    let mut first = true;
    assert(chars@.skip(0) =~= chars@);
    assert(out.deep_view() + listed_parts(chars@, style, true) =~= listed_parts(chars@, style, true));
    while at < chars.len()
        invariant
            at <= chars@.len(),
            chars@ == path@,
            parts_of(path@, style) == out.deep_view() + listed_parts(
                chars@.skip(at as int),
                style,
                first,
            ),
        decreases chars@.len() - at,
    {
        let ghost rest = chars@.skip(at as int);
        let ghost before = out.deep_view();
        let end: usize = find_piece_end(&chars, at, style);
        let piece = text::substring(path, at, end);
        assert(piece@ =~= rest.take(piece_end(rest, style) as int));
        match find_part(piece.as_str(), first) {
            Some(part) => {
                let ghost view = part.deep_view();
                out.push(part);
                assert(out.deep_view() =~= before.push(view));
            },
            None => {},
        }
        let ghost left = after_piece(rest, style);
        at = if end < chars.len() {
            end + 1
        } else {
            end
        };
        first = false;
        assert(left =~= chars@.skip(at as int));
        assert(parts_of(path@, style) =~= out.deep_view() + listed_parts(left, style, false));
    }
    assert(chars@.skip(at as int).len() == 0);
    assert(out.deep_view() + listed_parts(chars@.skip(at as int), style, first)
        =~= out.deep_view());
    out
}

/// Whether every part is an ordinary name.
pub fn has_only_names(parts: &Vec<PathPart>) -> (r: bool)
    ensures
        r == only_names(parts.deep_view()),
{
    let ghost view = parts.deep_view();
    let mut i: usize = 0;
    while i < parts.len()
        invariant
            i <= parts@.len(),
            view == parts.deep_view(),
            forall|j: int| 0 <= j < i ==> (#[trigger] view[j]) is Normal,
        decreases parts@.len() - i,
    {
        assert(view[i as int] == parts@[i as int].deep_view());
        match &parts[i] {
            PathPart::Normal(_) => {},
            PathPart::Other => {
                return false;
            },
        }
        i += 1;
    }
    true
}

/// The name that parts begin with, or nothing.
pub fn find_root_name(parts: &Vec<PathPart>) -> (r: String)
    ensures
        r@ == root_name(parts.deep_view()),
{
    let ghost view = parts.deep_view();
    if parts.len() > 0 {
        assert(view[0] == parts@[0].deep_view());
        match &parts[0] {
            PathPart::Normal(name) => {
                return name.copy_of();
            },
            PathPart::Other => {},
        }
    }
    let empty = String::new();
    assert(empty@ =~= Seq::empty());
    empty
}

fn find_last_dot(name: &Vec<char>) -> (r: Option<usize>)
    ensures
        match r {
            Some(at) => at < name@.len() && last_dot(name@) == at,
            None => last_dot(name@) == -1,
        },
{
    let mut end: usize = name.len();
    assert(name@.take(end as int) =~= name@);
    while end > 0
        invariant
            end <= name@.len(),
            last_dot(name@) == last_dot(name@.take(end as int)),
        decreases end,
    {
        if name[end - 1] == '.' {
            return Some(end - 1);
        }
        assert(name@.take(end as int).drop_last() =~= name@.take(end - 1));
        end -= 1;
    }
    None
}

/// The extension of what parts name.
pub fn find_extension(parts: &Vec<PathPart>) -> (r: Option<String>)
    ensures
        r.deep_view() == extension_of(parts.deep_view()),
{
    let ghost view = parts.deep_view();
    if parts.len() == 0 {
        return None;
    }
    let last: usize = parts.len() - 1;
    assert(view.last() == parts@[last as int].deep_view());
    match &parts[last] {
        PathPart::Other => None,
        PathPart::Normal(name) => {
            let chars = text::chars_of(name.as_str());
            let length: usize = chars.len();
            match find_last_dot(&chars) {
                Some(at) => {
                    assert(at < length);
                    if at > 0 {
                        let found = text::substring(name.as_str(), at + 1, length);
                        assert(found@ =~= name@.skip(at + 1));
                        Some(found)
                    } else {
                        None
                    }
                },
                None => None,
            }
        },
    }
}

proof fn lemma_piece(path: Seq<char>, style: PathStyle)
    ensures
        piece_end(path, style) <= path.len(),
        forall|i: int| 0 <= i < piece_end(path, style) ==> !parts_at(#[trigger] path[i], style),
    decreases path.len(),
{
    if path.len() > 0 && !parts_at(path[0], style) {
        let rest = path.drop_first();
        lemma_piece(rest, style);
        assert forall|i: int| 0 <= i < piece_end(path, style) implies !parts_at(
            #[trigger] path[i],
            style,
        ) by {
            if i > 0 {
                assert(rest[i - 1] == path[i]);
            }
        }
    }
}

proof fn lemma_listed_parts(path: Seq<char>, style: PathStyle, first: bool)
    ensures
        forall|k: int|
            0 <= k < listed_parts(path, style, first).len() ==> is_plain_name(
                #[trigger] listed_parts(path, style, first)[k],
                style,
            ),
    decreases path.len(),
{
    if path.len() > 0 {
        lemma_piece(path, style);
        let end = piece_end(path, style) as int;
        let piece = path.take(end);
        lemma_listed_parts(after_piece(path, style), style, false);
        let rest = listed_parts(after_piece(path, style), style, false);
        let all = listed_parts(path, style, first);
        assert forall|k: int| 0 <= k < all.len() implies is_plain_name(
            #[trigger] all[k],
            style,
        ) by {
            match part_of(piece, first) {
                Some(part) => {
                    if k > 0 {
                        assert(all[k] == rest[k - 1]);
                    } else {
                        assert forall|i: int| 0 <= i < piece.len() implies !parts_at(
                            #[trigger] piece[i],
                            style,
                        ) by {
                            assert(path[i] == piece[i]);
                        }
                    }
                },
                None => {
                    assert(all[k] == rest[k]);
                },
            }
        }
    }
}

/// A part that is a name is not empty, has no separator in it, and is neither `.` nor `..`.
pub open spec fn is_plain_name(part: PathPartView, style: PathStyle) -> bool {
    part is Normal ==> part->Normal_0.len() > 0 && part->Normal_0 != seq!['.'] && part->Normal_0
        != seq!['.', '.'] && forall|i: int|
        0 <= i < part->Normal_0.len() ==> !parts_at(#[trigger] part->Normal_0[i], style)
}

/// The names in a path are not empty, have no separator in them, and are neither `.` nor `..`; a path
/// with a root or a drive is never made of names alone.
pub proof fn law_names_are_plain(path: Seq<char>, style: PathStyle)
    ensures
        forall|k: int|
            0 <= k < parts_of(path, style).len() ==> is_plain_name(
                #[trigger] parts_of(path, style)[k],
                style,
            ),
        path.len() > 0 && path[0] == '/' ==> !only_names(parts_of(path, style)),
        path.len() > 0 && path[0] == '\\' && style == PathStyle::Windows ==> !only_names(
            parts_of(path, style),
        ),
        path.len() > 1 && 'A' <= path[0] <= 'Z' && path[1] == ':' && style == PathStyle::Windows
            ==> !only_names(parts_of(path, style)),
{
    lemma_listed_parts(path, style, true);
    if rooted(path, style) {
        assert(parts_of(path, style)[0] is Other);
    }
}

proof fn lemma_last_dot(name: Seq<char>)
    ensures
        -1 <= last_dot(name) < name.len(),
        last_dot(name) >= 0 ==> name[last_dot(name)] == '.',
        forall|i: int| last_dot(name) < i < name.len() ==> #[trigger] name[i] != '.',
    decreases name.len(),
{
    if name.len() > 0 && name.last() != '.' {
        let front = name.drop_last();
        lemma_last_dot(front);
        assert forall|i: int| last_dot(name) < i < name.len() implies #[trigger] name[i] != '.' by {
            if i < front.len() {
                assert(front[i] == name[i]);
            }
        }
        if last_dot(front) >= 0 {
            assert(front[last_dot(front)] == name[last_dot(front)]);
        }
    }
}

/// The extension of a name has no dot in it, comes after one, and leaves something in front of that;
/// there is none exactly where the name has no dot but at its beginning.
pub proof fn law_extension_follows_the_last_dot(name: Seq<char>)
    ensures
        ({
            let found = extension(name);
            let at = name.len() - found->0.len() - 1;
            &&& found is Some ==> at > 0 && name[at] == '.' && name.skip(at + 1) == found->0
                && !found->0.contains('.')
            &&& found is None <==> forall|i: int| 0 < i < name.len() ==> #[trigger] name[i] != '.'
        }),
{
    lemma_last_dot(name);
    let at = last_dot(name);
    if at > 0 {
        let ext = name.skip(at + 1);
        assert forall|i: int| 0 <= i < ext.len() implies ext[i] != '.' by {
            assert(name[at + 1 + i] == ext[i]);
        }
    }
}

/// Parts begin with the name of the first, where that is a name, and the extension of a path is that
/// of its last part, where that is one.
pub proof fn law_first_and_last_parts(parts: Seq<PathPartView>)
    ensures
        parts.len() > 0 && parts[0] is Normal ==> root_name(parts) == parts[0]->Normal_0,
        parts.len() == 0 || parts[0] is Other ==> root_name(parts).len() == 0,
        parts.len() > 0 && parts.last() is Normal ==> extension_of(parts) == extension(
            parts.last()->Normal_0,
        ),
        parts.len() == 0 || parts.last() is Other ==> extension_of(parts) is None,
{
}

} // verus!
