//! Confining the paths that a client names to the client's own directory.
//!
//! A path is modelled as the sequence of its components. The root of user
//! `id` is `users/<id>/files` below the data root; a resolved path is that
//! root followed by the entries that the client's text names.

use crate::decimal::{
    decimal, is_digit, lemma_decimal_digits, lemma_decimal_injective, push_decimal,
};
use crate::error::{ErrorView, ServiceError};
use crate::text::{
    joined, lemma_joined_extends, lemma_joined_push, lemma_parts_of_joined, lemma_parts_rejoin,
    parts, split, texts,
};
use vstd::string::StringExecFns;
use vstd::prelude::*;

verus! {

/// The component that names the parent directory.
pub open spec fn is_parent_dir(part: Seq<char>) -> bool {
    part == seq!['.', '.']
}

/// The component that names the directory itself.
pub open spec fn is_current_dir(part: Seq<char>) -> bool {
    part == seq!['.']
}

/// Whether a part of a client's path names an entry: it is not empty, and
/// it names neither the directory itself nor its parent.
pub open spec fn names_entry(part: Seq<char>) -> bool {
    part.len() > 0 && !is_current_dir(part) && !is_parent_dir(part)
}

/// The parts that `/` cuts a client's path into.
pub open spec fn path_parts(relative: Seq<char>) -> Seq<Seq<char>> {
    parts(relative, '/')
}

/// Whether a client's path holds a parent-directory part anywhere.
pub open spec fn climbs(relative: Seq<char>) -> bool {
    exists|i: int|
        0 <= i < path_parts(relative).len() && is_parent_dir(#[trigger] path_parts(relative)[i])
}

/// Those of `pieces` that name an entry, in order.
pub open spec fn entries_among(pieces: Seq<Seq<char>>) -> Seq<Seq<char>> {
    pieces.filter(|part: Seq<char>| names_entry(part))
}

/// The entries that a client's path names, in order: its parts without the
/// empty ones and without those that name the directory itself.
pub open spec fn entry_names(relative: Seq<char>) -> Seq<Seq<char>> {
    entries_among(path_parts(relative))
}

/// The components of the root directory of user `user_id`, below the data root.
pub open spec fn user_root(user_id: u32) -> Seq<Seq<char>> {
    seq!["users"@, decimal(user_id as nat), "files"@]
}

/// Whether `path` lies in the subtree of `root`: `root` itself, or anything
/// reached from it by going down.
pub open spec fn in_subtree(path: Seq<Seq<char>>, root: Seq<Seq<char>>) -> bool {
    root.is_prefix_of(path)
}

/// A resolved path as a value: the owner and the entries below the owner's root.
pub struct PathView {
    pub user_id: u32,
    pub segments: Seq<Seq<char>>,
}

impl PathView {
    /// Every segment names one entry: none is empty, names the directory
    /// itself or its parent, or holds a separator.
    pub open spec fn wf(self) -> bool {
        forall|i: int|
            0 <= i < self.segments.len() ==> names_entry(#[trigger] self.segments[i])
                && !self.segments[i].contains('/')
    }

    /// The components of the path below the data root.
    pub open spec fn components(self) -> Seq<Seq<char>> {
        user_root(self.user_id) + self.segments
    }
}

/// The path that resolving `relative` for `user_id` gives, where it gives one.
pub open spec fn resolved(user_id: u32, relative: Seq<char>) -> PathView {
    PathView { user_id, segments: entry_names(relative) }
}

/// What resolving `relative` for `user_id` gives: a refusal where the path
/// climbs, and otherwise the path below the user's root.
pub open spec fn confined(user_id: u32, relative: Seq<char>) -> Result<PathView, ErrorView> {
    if climbs(relative) {
        Err(ErrorView::PathTraversal)
    } else {
        Ok(resolved(user_id, relative))
    }
}

/// The outcome of a resolution as a value.
pub open spec fn plan_view(plan: Result<ResolvedPath, ServiceError>) -> Result<
    PathView,
    ErrorView,
> {
    match plan {
        Ok(path) => Ok(path@),
        Err(e) => Err(e@),
    }
}

/// A path inside one user's directory. Only [`resolve_path`] makes one.
#[derive(Debug, PartialEq, Eq)]
pub struct ResolvedPath {
    user_id: u32,
    segments: Vec<String>,
}

impl View for ResolvedPath {
    type V = PathView;

    closed spec fn view(&self) -> PathView {
        PathView { user_id: self.user_id, segments: texts(self.segments@) }
    }
}

/// The text of a path below the data root `data_root`: the data root and
/// the components, with `/` between them.
pub open spec fn rendered(data_root: Seq<char>, path: PathView) -> Seq<char> {
    joined(seq![data_root] + path.components(), '/')
}

impl ResolvedPath {
    /// Every resolved path is well formed, wherever it has been since it
    /// was resolved.
    #[verifier::type_invariant]
    spec fn well_formed(&self) -> bool {
        self@.wf()
    }

    /// The user in whose directory the path lies.
    pub fn user_id(&self) -> (id: u32)
        ensures
            id == self@.user_id,
    {
        self.user_id
    }

    /// The entries from the user's root down to the target.
    pub fn segments(&self) -> (segments: &Vec<String>)
        ensures
            texts(segments@) == self@.segments,
            self@.wf(),
    {
        proof {
            use_type_invariant(self);
        }
        &self.segments
    }

    /// Writes the path out below `data_root`, for the file system.
    pub fn render(&self, data_root: &str) -> (text: String)
        ensures
            text@ == rendered(data_root@, self@),
            self@.wf(),
    {
        proof {
            use_type_invariant(self);
        }
        let mut text = data_root.to_owned();
        let ghost mut items = seq![data_root@];
        proof {
            lemma_joined_push(items, "users"@, '/');
            lemma_joined_push(items.push("users"@), decimal(self.user_id as nat), '/');
            lemma_joined_push(
                items.push("users"@).push(decimal(self.user_id as nat)),
                "files"@,
                '/',
            );
        }
        text.push('/');
        text.append("users");
        text.push('/');
        push_decimal(&mut text, self.user_id);
        text.push('/');
        text.append("files");
        proof {
            items = items.push("users"@).push(decimal(self.user_id as nat)).push("files"@);
            assert(items == seq![data_root@] + user_root(self.user_id));
        }
        let mut k: usize = 0;
        while k < self.segments.len()
            invariant
                k <= self.segments.len(),
                items == seq![data_root@] + user_root(self.user_id) + texts(self.segments@).take(
                    k as int,
                ),
                text@ == joined(items, '/'),
            decreases self.segments.len() - k,
        {
            let segment = &self.segments[k];
            proof {
                lemma_joined_push(items, segment@, '/');
                assert(texts(self.segments@).take(k + 1) == texts(self.segments@).take(
                    k as int,
                ).push(segment@));
                items = items.push(segment@);
            }
            text.push('/');
            text.append(segment.as_str());
            k += 1;
        }
        proof {
            assert(texts(self.segments@).take(k as int) == texts(self.segments@));
            assert(items == seq![data_root@] + self@.components());
        }
        text
    }
}

/// No component of a well-formed path names a parent directory or the
/// directory itself, none is empty and none holds a separator: going down
/// the components from the data root never leads up again.
pub proof fn lemma_components_descend(path: PathView)
    requires
        path.wf(),
    ensures
        in_subtree(path.components(), user_root(path.user_id)),
        forall|i: int|
            0 <= i < path.components().len() ==> names_entry(#[trigger] path.components()[i])
                && !path.components()[i].contains('/'),
{
    reveal_strlit("users");
    reveal_strlit("files");
    lemma_decimal_digits(path.user_id as nat);
    let number = decimal(path.user_id as nat);
    assert(!number.contains('/')) by {
        if number.contains('/') {
            let i = choose|i: int| 0 <= i < number.len() && number[i] == '/';
            assert(is_digit(number[i]));
        }
    }
    assert(names_entry(number)) by {
        assert(is_digit(number[0]));
    }
    assert(names_entry("users"@)) by {
        assert("users"@[0] == 'u');
    }
    assert(names_entry("files"@)) by {
        assert("files"@[0] == 'f');
    }
    assert(!"users"@.contains('/'));
    assert(!"files"@.contains('/'));
    assert forall|i: int| 0 <= i < path.components().len() implies names_entry(
        #[trigger] path.components()[i],
    ) && !path.components()[i].contains('/') by {
        if i >= 3 {
            assert(path.components()[i] == path.segments[i - 3]);
        }
    }
}

/// Users are isolated from one another: a path of one user never lies in
/// the subtree of another user's root.
pub proof fn lemma_users_are_isolated(first: PathView, second: PathView)
    requires
        first.user_id != second.user_id,
    ensures
        !in_subtree(first.components(), user_root(second.user_id)),
        !in_subtree(second.components(), user_root(first.user_id)),
{
    if in_subtree(first.components(), user_root(second.user_id)) {
        assert(first.components()[1] == user_root(second.user_id)[1]);
        lemma_decimal_injective(first.user_id as nat, second.user_id as nat);
    }
    if in_subtree(second.components(), user_root(first.user_id)) {
        assert(second.components()[1] == user_root(first.user_id)[1]);
        lemma_decimal_injective(first.user_id as nat, second.user_id as nat);
    }
}

/// A parent-directory part anywhere is refused, whatever stands before and
/// after it: a path written as parts with `/` between them, one of which
/// names the parent directory, resolves for no user.
pub proof fn lemma_parent_dir_anywhere_is_refused(user_id: u32, items: Seq<Seq<char>>, at: int)
    requires
        forall|i: int| 0 <= i < items.len() ==> !(#[trigger] items[i]).contains('/'),
        0 <= at < items.len(),
        is_parent_dir(items[at]),
    ensures
        climbs(joined(items, '/')),
        confined(user_id, joined(items, '/')) == Err::<PathView, ErrorView>(
            ErrorView::PathTraversal,
        ),
{
    lemma_parts_of_joined(items, '/');
    assert(is_parent_dir(path_parts(joined(items, '/'))[at]));
}

/// A path written as names with `/` between them resolves to exactly those
/// names below the user's root.
pub proof fn lemma_names_resolve_to_themselves(user_id: u32, items: Seq<Seq<char>>)
    requires
        items.len() >= 1,
        forall|i: int|
            0 <= i < items.len() ==> names_entry(#[trigger] items[i]) && !items[i].contains('/'),
    ensures
        confined(user_id, joined(items, '/')) == Ok::<PathView, ErrorView>(
            PathView { user_id, segments: items },
        ),
{
    lemma_parts_of_joined(items, '/');
    lemma_entries_of_names(items);
}

/// Pieces that all name an entry are all kept.
proof fn lemma_entries_of_names(items: Seq<Seq<char>>)
    requires
        forall|i: int| 0 <= i < items.len() ==> names_entry(#[trigger] items[i]),
    ensures
        entries_among(items) == items,
    decreases items.len(),
{
    reveal(Seq::filter);
    if items.len() > 0 {
        let init = items.drop_last();
        assert forall|i: int| 0 <= i < init.len() implies names_entry(#[trigger] init[i]) by {
            assert(init[i] == items[i]);
        }
        lemma_entries_of_names(init);
        lemma_entries_push(init, items.last());
        assert(init.push(items.last()) == items);
    }
}

/// The text of the root directory of user `user_id` below `data_root`.
pub open spec fn rendered_root(data_root: Seq<char>, user_id: u32) -> Seq<char> {
    joined(seq![data_root] + user_root(user_id), '/')
}

/// Whether the text `path` names `root` or something below it: after
/// `root` comes nothing, or a separator. That `root` begins `path` is not
/// enough: `users/1` begins `users/10`.
pub open spec fn text_in_subtree(path: Seq<char>, root: Seq<char>) -> bool {
    path == root || root.push('/').is_prefix_of(path)
}

/// The text of a user's root, written out.
proof fn lemma_rendered_root_shape(data_root: Seq<char>, user_id: u32)
    ensures
        rendered_root(data_root, user_id) == data_root.push('/') + "users"@.push('/') + decimal(
            user_id as nat,
        ).push('/') + "files"@,
{
    let number = decimal(user_id as nat);
    let one = seq![data_root];
    let two = one.push("users"@);
    let three = two.push(number);
    lemma_joined_push(one, "users"@, '/');
    lemma_joined_push(two, number, '/');
    lemma_joined_push(three, "files"@, '/');
    assert(seq![data_root] + user_root(user_id) == three.push("files"@));
    assert(joined(one, '/') == data_root);
    assert(joined(two, '/') == data_root.push('/') + "users"@);
    assert(joined(three, '/') == (data_root.push('/') + "users"@).push('/') + number);
    assert(joined(three.push("files"@), '/') == ((data_root.push('/') + "users"@).push('/')
        + number).push('/') + "files"@);
    assert(((data_root.push('/') + "users"@).push('/') + number).push('/') + "files"@
        == data_root.push('/') + "users"@.push('/') + number.push('/') + "files"@);
}

/// What is written out for the file system keeps to the owner's root: the
/// text of a path names the owner's root or something below it.
pub proof fn lemma_rendered_within_own_root(data_root: Seq<char>, path: PathView)
    ensures
        text_in_subtree(rendered(data_root, path), rendered_root(data_root, path.user_id)),
{
    let base = seq![data_root] + user_root(path.user_id);
    lemma_joined_extends(base, path.segments, '/');
    assert(seq![data_root] + path.components() == base + path.segments);
}

/// What is written out for the file system keeps users apart, whatever the
/// data root and however the numerals of the two ids begin: the text of a
/// path of one user names neither the root of another user nor anything
/// below it.
pub proof fn lemma_rendered_users_are_isolated(data_root: Seq<char>, path: PathView, other: u32)
    requires
        path.user_id != other,
    ensures
        !text_in_subtree(rendered(data_root, path), rendered_root(data_root, other)),
{
    let text = rendered(data_root, path);
    let own = rendered_root(data_root, path.user_id);
    let foreign = rendered_root(data_root, other);
    if text_in_subtree(text, foreign) {
        lemma_rendered_within_own_root(data_root, path);
        lemma_rendered_root_shape(data_root, path.user_id);
        lemma_rendered_root_shape(data_root, other);
        reveal_strlit("users");
        reveal_strlit("files");
        let mine = decimal(path.user_id as nat);
        let theirs = decimal(other as nat);
        lemma_decimal_digits(path.user_id as nat);
        lemma_decimal_digits(other as nat);
        let lead = data_root.push('/') + "users"@.push('/');
        let n = lead.len() as int;
        assert(own == lead + mine.push('/') + "files"@);
        assert(foreign == lead + theirs.push('/') + "files"@);
        // both roots begin the text
        assert(own.is_prefix_of(text)) by {
            if text != own {
                assert(own.push('/').is_prefix_of(text));
                assert(own =~= own.push('/').subrange(0, own.len() as int));
            }
        }
        assert(foreign.is_prefix_of(text)) by {
            if text != foreign {
                assert(foreign.push('/').is_prefix_of(text));
                assert(foreign =~= foreign.push('/').subrange(0, foreign.len() as int));
            }
        }
        assert forall|i: int| 0 <= i < own.len() && i < foreign.len() implies own[i]
            == foreign[i] by {
            assert(own[i] == text.subrange(0, own.len() as int)[i]);
            assert(foreign[i] == text.subrange(0, foreign.len() as int)[i]);
        }
        assert(own.len() == n + mine.len() + 6);
        assert(foreign.len() == n + theirs.len() + 6);
        assert forall|i: int| 0 <= i < mine.len() implies own[n + i] == mine[i] by {}
        assert forall|i: int| 0 <= i < theirs.len() implies foreign[n + i] == theirs[i] by {}
        assert(own[n + mine.len()] == '/');
        assert(foreign[n + theirs.len()] == '/');
        if mine.len() < theirs.len() {
            assert(is_digit(theirs[mine.len() as int]));
            assert(own[n + mine.len()] == foreign[n + mine.len()]);
        } else if theirs.len() < mine.len() {
            assert(is_digit(mine[theirs.len() as int]));
            assert(own[n + theirs.len()] == foreign[n + theirs.len()]);
        } else {
            assert forall|i: int| 0 <= i < mine.len() implies mine[i] == theirs[i] by {
                assert(own[n + i] == foreign[n + i]);
            }
            assert(mine =~= theirs);
            lemma_decimal_injective(path.user_id as nat, other as nat);
        }
    }
}

/// The entries among some pieces, once one more piece is appended.
proof fn lemma_entries_push(pieces: Seq<Seq<char>>, piece: Seq<char>)
    ensures
        entries_among(pieces.push(piece)) == if names_entry(piece) {
            entries_among(pieces).push(piece)
        } else {
            entries_among(pieces)
        },
{
    reveal(Seq::filter);
    assert(pieces.push(piece).drop_last() == pieces);
}

/// Resolves the path that a client names, relative to the root of user
/// `user_id`. A path with a parent-directory part anywhere is refused;
/// empty parts and parts that name the directory itself are dropped, so a
/// leading `/` does not make the path absolute. The target need not exist.
pub fn resolve_path(user_id: u32, relative: &str) -> (result: Result<ResolvedPath, ServiceError>)
    ensures
        plan_view(result) == confined(user_id, relative@),
        climbs(relative@) <==> result is Err,
        result matches Ok(path) ==> path@.wf() && in_subtree(
            path@.components(),
            user_root(user_id),
        ),
{
    let pieces = split(relative, '/');
    let parent: String = "..".to_owned();
    let current: String = ".".to_owned();
    let empty: String = String::new();
    proof {
        reveal_strlit("..");
        reveal_strlit(".");
        assert(parent@ == seq!['.', '.']);
        assert(current@ == seq!['.']);
        lemma_parts_rejoin(relative@, '/');
        assert(texts(pieces@).take(0) == Seq::<Seq<char>>::empty());
        reveal(Seq::filter);
    }
    let mut segments: Vec<String> = Vec::new();
    let mut k: usize = 0;
    while k < pieces.len()
        invariant
            k <= pieces.len(),
            texts(pieces@) == path_parts(relative@),
            parent@ == seq!['.', '.'],
            current@ == seq!['.'],
            empty@ == Seq::<char>::empty(),
            forall|j: int| 0 <= j < k ==> !is_parent_dir(#[trigger] path_parts(relative@)[j]),
            forall|j: int|
                0 <= j < path_parts(relative@).len() ==> !(#[trigger] path_parts(
                    relative@,
                )[j]).contains('/'),
            texts(segments@) == entries_among(texts(pieces@).take(k as int)),
            forall|j: int|
                0 <= j < segments.len() ==> names_entry(#[trigger] texts(segments@)[j]) && !texts(
                    segments@,
                )[j].contains('/'),
        decreases pieces.len() - k,
    {
        let piece = &pieces[k];
        let ghost seen = texts(pieces@).take(k as int);
        let ghost kept = texts(segments@);
        proof {
            assert(texts(pieces@)[k as int] == piece@);
            assert(texts(pieces@).take(k + 1) == seen.push(piece@));
            lemma_entries_push(seen, piece@);
        }
        if *piece == parent {
            return Err(ServiceError::PathTraversal);
        }
        if !(*piece == empty) && !(*piece == current) {
            assert(piece@.len() > 0) by {
                if piece@.len() == 0 {
                    assert(piece@ == Seq::<char>::empty());
                }
            }
            segments.push(piece.clone());
            assert(texts(segments@) == kept.push(piece@));
        }
        k += 1;
    }
    proof {
        assert(texts(pieces@).take(k as int) == texts(pieces@));
    }
    Ok(ResolvedPath { user_id, segments })
}

} // verus!
