//! The structure normalizer: finds the model descriptor in an unpacked
//! bundle, gathers a flat bundle into a folder of its own, and picks the
//! texture folder.

use crate::error::{CoreError, ErrorView};
use crate::text::{
    ends_with, has_suffix, opt_view, same_text, strip_suffix, text_views, without_suffix,
};
use vstd::prelude::*;
use vstd::string::*;

verus! {

/// One entry of a directory listing, with what lies below it.
#[derive(Debug)]
pub enum Entry {
    /// A regular file.
    File(String),
    /// A directory and its entries, in listing order.
    Dir(String, Vec<Entry>),
    /// Something that is neither a file nor a directory.
    Other(String),
}

/// A directory entry as a value.
pub ghost enum Tree {
    File(Seq<char>),
    Dir(Seq<char>, Seq<Tree>),
    Other(Seq<char>),
}

impl View for Entry {
    type V = Tree;

    open spec fn view(&self) -> Tree
        decreases self,
    {
        match self {
            Entry::File(name) => Tree::File(name@),
            Entry::Dir(name, entries) => Tree::Dir(name@, trees(entries@)),
            Entry::Other(name) => Tree::Other(name@),
        }
    }
}

/// The views of a listing.
pub open spec fn trees(entries: Seq<Entry>) -> Seq<Tree>
    decreases entries,
{
    if entries.len() == 0 {
        Seq::empty()
    } else {
        trees(entries.drop_last()).push(entries.last()@)
    }
}

/// The views of a listing stand entry by entry.
pub proof fn lemma_trees(entries: Seq<Entry>)
    ensures
        trees(entries).len() == entries.len(),
        forall|i: int| 0 <= i < entries.len() ==> trees(entries)[i] == (#[trigger] entries[i])@,
    decreases entries.len(),
{
    if entries.len() > 0 {
        let front = entries.drop_last();
        lemma_trees(front);
        assert(trees(entries) == trees(front).push(entries.last()@));
        assert(trees(entries).len() == entries.len());
        assert forall|i: int| 0 <= i < entries.len() implies trees(entries)[i] == (
        #[trigger] entries[i])@ by {
            if i < entries.len() - 1 {
                assert(front[i] == entries[i]);
                assert(trees(front)[i] == front[i]@);
            }
        }
    }
}

/// The name of an entry.
pub open spec fn name_of(t: Tree) -> Seq<char> {
    match t {
        Tree::File(name) => name,
        Tree::Dir(name, _) => name,
        Tree::Other(name) => name,
    }
}

/// How deep below a bundle's top-level folders a descriptor is looked for.
pub const MAX_MODEL_SEARCH_DEPTH: u32 = 3;

/// A descriptor is a file whose name ends in `.model3.json`.
pub open spec fn is_descriptor(t: Tree) -> bool {
    t is File && has_suffix(name_of(t), ".model3.json"@)
}

/// The first descriptor of a listing, if it holds one.
pub open spec fn first_descriptor(entries: Seq<Tree>) -> Option<Seq<char>>
    decreases entries.len(),
{
    if entries.len() == 0 {
        None
    } else if is_descriptor(entries[0]) {
        Some(name_of(entries[0]))
    } else {
        first_descriptor(entries.drop_first())
    }
}

/// A model that was found: the folders that lead to it, its descriptor, and
/// the listing of its folder.
pub ghost struct Found {
    pub path: Seq<Seq<char>>,
    pub file: Seq<char>,
    pub entries: Seq<Tree>,
}

/// The model found in a listing with `depth` levels to go: a descriptor of
/// the listing itself wins; else the folders are searched in listing order,
/// each to one level less, and the first folder with a model wins.  With no
/// level to go nothing is found.
pub open spec fn find_model(entries: Seq<Tree>, depth: nat) -> Option<Found>
    decreases depth, 0nat, 0nat,
{
    if depth == 0 {
        None
    } else {
        match first_descriptor(entries) {
            Some(file) => Some(Found { path: Seq::empty(), file: file, entries: entries }),
            None => find_in_folders(entries, (depth - 1) as nat),
        }
    }
}

/// The model of the first folder of a listing in which `find_model` finds
/// one with `depth` levels to go, its path led by that folder's name.
pub open spec fn find_in_folders(entries: Seq<Tree>, depth: nat) -> Option<Found>
    decreases depth, 1nat, entries.len(),
{
    if entries.len() == 0 {
        None
    } else {
        let here = match entries[0] {
            Tree::Dir(name, below) => match find_model(below, depth) {
                Some(found) => Some(Found { path: seq![name] + found.path, ..found }),
                None => None,
            },
            _ => None,
        };
        match here {
            Some(found) => Some(found),
            None => find_in_folders(entries.drop_first(), depth),
        }
    }
}

/// What `first_descriptor` names is a descriptor of the listing.
pub proof fn lemma_first_descriptor(entries: Seq<Tree>)
    ensures
        first_descriptor(entries) matches Some(file) ==> exists|i: int|
            0 <= i < entries.len() && is_descriptor(#[trigger] entries[i]) && name_of(entries[i])
                == file,
    decreases entries.len(),
{
    if entries.len() > 0 && !is_descriptor(entries[0]) {
        let rest = entries.drop_first();
        lemma_first_descriptor(rest);
        if let Some(file) = first_descriptor(rest) {
            let i = choose|i: int|
                0 <= i < rest.len() && is_descriptor(#[trigger] rest[i]) && name_of(rest[i])
                    == file;
            assert(entries[i + 1] == rest[i]);
        }
    }
}

/// A search never reaches below its depth, and what it finds is a
/// descriptor that stands in the folder it reports.
pub proof fn lemma_find_model_bounded(entries: Seq<Tree>, depth: nat)
    ensures
        find_model(entries, depth) matches Some(found) ==> found.path.len() < depth
            && first_descriptor(found.entries) == Some(found.file),
    decreases depth, 0nat, 0nat,
{
    if depth > 0 && first_descriptor(entries) is None {
        lemma_find_in_folders_bounded(entries, (depth - 1) as nat);
    }
}

/// A search of the folders of a listing reports at least the folder it
/// entered and never reaches below its depth.
pub proof fn lemma_find_in_folders_bounded(entries: Seq<Tree>, depth: nat)
    ensures
        find_in_folders(entries, depth) matches Some(found) ==> 1 <= found.path.len() <= depth
            && first_descriptor(found.entries) == Some(found.file),
    decreases depth, 1nat, entries.len(),
{
    if entries.len() > 0 {
        lemma_find_in_folders_bounded(entries.drop_first(), depth);
        if let Tree::Dir(name, below) = entries[0] {
            lemma_find_model_bounded(below, depth);
        }
    }
}

/// Folder names that carry a texture size tag.
pub open spec fn is_size_tagged(name: Seq<char>) -> bool {
    has_suffix(name, ".2048"@) || has_suffix(name, ".4096"@) || has_suffix(name, ".1024"@)
}

/// Whether a listing holds an image: a file whose name ends in `.png`.
pub open spec fn holds_image(entries: Seq<Tree>) -> bool {
    exists|i: int|
        0 <= i < entries.len() && (#[trigger] entries[i]) is File && has_suffix(
            name_of(entries[i]),
            ".png"@,
        )
}

/// The ways in which a folder can pass for a texture folder, in the order
/// in which they are tried.
#[derive(Debug)]
pub enum TextureMark {
    /// The folder's name carries a size tag.
    SizeTag,
    /// The folder is named `textures`.
    Named,
    /// The folder holds an image.
    HoldsImage,
}

/// Whether an entry is a folder that bears the mark.
pub open spec fn bears(t: Tree, mark: TextureMark) -> bool {
    match t {
        Tree::Dir(name, below) => match mark {
            TextureMark::SizeTag => is_size_tagged(name),
            TextureMark::Named => name == "textures"@,
            TextureMark::HoldsImage => holds_image(below),
        },
        _ => false,
    }
}

/// The first folder of a listing that bears the mark.
pub open spec fn first_marked(entries: Seq<Tree>, mark: TextureMark) -> Option<Seq<char>>
    decreases entries.len(),
{
    if entries.len() == 0 {
        None
    } else if bears(entries[0], mark) {
        Some(name_of(entries[0]))
    } else {
        first_marked(entries.drop_first(), mark)
    }
}

/// The texture folder of a model folder: the first folder with a size tag,
/// wherever it stands in the listing; else the first folder named
/// `textures`; else the first folder that holds an image; else none.
pub open spec fn texture_folder(entries: Seq<Tree>) -> Option<Seq<char>> {
    match first_marked(entries, TextureMark::SizeTag) {
        Some(name) => Some(name),
        None => match first_marked(entries, TextureMark::Named) {
            Some(name) => Some(name),
            None => first_marked(entries, TextureMark::HoldsImage),
        },
    }
}

/// A folder with a size tag wins over every other folder, and a folder
/// named `textures` over every folder that merely holds an image, whatever
/// the order of the listing.  What is found is a folder of the listing.
pub proof fn lemma_texture_priority(entries: Seq<Tree>)
    ensures
        (exists|i: int| 0 <= i < entries.len() && bears(#[trigger] entries[i], TextureMark::SizeTag))
            ==> (texture_folder(entries) matches Some(name) && is_size_tagged(name)),
        (exists|i: int| 0 <= i < entries.len() && bears(#[trigger] entries[i], TextureMark::Named))
            ==> (texture_folder(entries) matches Some(name) && (is_size_tagged(name) || name
            == "textures"@)),
        texture_folder(entries) matches Some(name) ==> exists|i: int|
            0 <= i < entries.len() && (#[trigger] entries[i]) is Dir && name_of(entries[i]) == name,
        texture_folder(entries) is None <==> forall|i: int|
            0 <= i < entries.len() ==> !bears(#[trigger] entries[i], TextureMark::SizeTag)
                && !bears(entries[i], TextureMark::Named) && !bears(
                entries[i],
                TextureMark::HoldsImage,
            ),
{
    lemma_first_marked(entries, TextureMark::SizeTag);
    lemma_first_marked(entries, TextureMark::Named);
    lemma_first_marked(entries, TextureMark::HoldsImage);
}

/// `first_marked` names the first folder that bears the mark, and names
/// none exactly where no folder bears it.
pub proof fn lemma_first_marked(entries: Seq<Tree>, mark: TextureMark)
    ensures
        match first_marked(entries, mark) {
            Some(name) => exists|i: int|
                0 <= i < entries.len() && bears(#[trigger] entries[i], mark) && name_of(entries[i])
                    == name && entries[i] is Dir,
            None => forall|i: int| 0 <= i < entries.len() ==> !bears(#[trigger] entries[i], mark),
        },
    decreases entries.len(),
{
    if entries.len() > 0 && !bears(entries[0], mark) {
        let rest = entries.drop_first();
        lemma_first_marked(rest, mark);
        match first_marked(rest, mark) {
            Some(name) => {
                let i = choose|i: int|
                    0 <= i < rest.len() && bears(#[trigger] rest[i], mark) && name_of(rest[i])
                        == name && rest[i] is Dir;
                assert(entries[i + 1] == rest[i]);
            },
            None => {
                assert forall|i: int| 0 <= i < entries.len() implies !bears(
                    #[trigger] entries[i],
                    mark,
                ) by {
                    if i > 0 {
                        assert(rest[i - 1] == entries[i]);
                    }
                }
            },
        }
    } else if entries.len() > 0 {
        assert(bears(entries[0], mark));
    }
}

impl Entry {
    /// The name of the entry.
    pub fn name(&self) -> (r: &String)
        ensures
            r@ == name_of(self@),
    {
        match self {
            Entry::File(name) => name,
            Entry::Dir(name, _) => name,
            Entry::Other(name) => name,
        }
    }

    /// Whether the entry is a file whose name ends in `.model3.json`.
    pub fn is_model_file(&self) -> (r: bool)
        ensures
            r == is_descriptor(self@),
    {
        match self {
            Entry::File(name) => ends_with(name.as_str(), ".model3.json"),
            _ => false,
        }
    }
}

/// The name of the first descriptor of a listing.
fn first_model_file(entries: &Vec<Entry>) -> (r: Option<String>)
    ensures
        opt_view(r) == first_descriptor(trees(entries@)),
{
    let n = entries.len();
    let ghost all = trees(entries@);
    proof {
        lemma_trees(entries@);
        assert(all.subrange(0, n as int) =~= all);
    }
    let mut i: usize = 0;
    while i < n
        invariant
            n == entries@.len(),
            all == trees(entries@),
            all.len() == n,
            forall|k: int| 0 <= k < n ==> all[k] == (#[trigger] entries@[k])@,
            i <= n,
            first_descriptor(all) == first_descriptor(all.subrange(i as int, n as int)),
        decreases n - i,
    {
        let ghost tail = all.subrange(i as int, n as int);
        assert(tail[0] == entries@[i as int]@);
        assert(tail.drop_first() =~= all.subrange(i + 1, n as int));
        if entries[i].is_model_file() {
            return Some(entries[i].name().clone());
        }
        i += 1;
    }
    None
}

/// A model that a search found: the folders that lead to it from the
/// listing searched, its descriptor, and the listing of its folder.
pub struct FoundModel<'a> {
    pub path: Vec<String>,
    pub file: String,
    pub entries: &'a Vec<Entry>,
}

impl<'a> View for FoundModel<'a> {
    type V = Found;

    open spec fn view(&self) -> Found {
        Found { path: text_views(self.path@), file: self.file@, entries: trees(self.entries@) }
    }
}

/// What is detected is a descriptor: the file reported carries a
/// descriptor's name.  A flat bundle's folder is named after it; any other
/// bundle is left as it is, its model at most three folders down.
pub proof fn lemma_detected_descriptor(root: Seq<Tree>)
    ensures
        detected(root) matches Some(d) ==> has_suffix(d.model_file, ".model3.json"@) && (d.flat
            ==> d.folder == model_name(d.model_file)) && (!d.flat ==> d.moved.len() == 0 && d.root
            == root),
{
    lemma_first_descriptor(root);
    lemma_find_in_folders_bounded(root, MAX_MODEL_SEARCH_DEPTH as nat);
    if let Some(found) = find_in_folders(root, MAX_MODEL_SEARCH_DEPTH as nat) {
        lemma_first_descriptor(found.entries);
    }
}

/// Searches a listing for a model descriptor, `max_depth` levels deep: the
/// files of a level are looked at before any of its folders is entered, and
/// the first folder that holds a model wins.
pub fn find_model_file_recursive<'a>(entries: &'a Vec<Entry>, max_depth: u32) -> (r: Option<
    FoundModel<'a>,
>)
    ensures
        match r {
            Some(found) => find_model(trees(entries@), max_depth as nat) == Some(found@),
            None => find_model(trees(entries@), max_depth as nat) is None,
        },
    decreases max_depth, 0nat,
{
    if max_depth == 0 {
        return None;
    }
    if let Some(file) = first_model_file(entries) {
        proof {
            assert(text_views(Seq::<String>::empty()) =~= Seq::<Seq<char>>::empty());
        }
        return Some(FoundModel { path: Vec::new(), file: file, entries: entries });
    }
    find_in_listing(entries, max_depth - 1)
}

/// Searches the folders of a listing in order, each `depth` levels deep.
fn find_in_listing<'a>(entries: &'a Vec<Entry>, depth: u32) -> (r: Option<FoundModel<'a>>)
    ensures
        match r {
            Some(found) => find_in_folders(trees(entries@), depth as nat) == Some(found@),
            None => find_in_folders(trees(entries@), depth as nat) is None,
        },
    decreases depth, 1nat,
{
    let n = entries.len();
    let ghost all = trees(entries@);
    proof {
        lemma_trees(entries@);
        assert(all.subrange(0, n as int) =~= all);
    }
    let mut i: usize = 0;
    while i < n
        invariant
            n == entries@.len(),
            all == trees(entries@),
            all.len() == n,
            forall|k: int| 0 <= k < n ==> all[k] == (#[trigger] entries@[k])@,
            i <= n,
            find_in_folders(all, depth as nat) == find_in_folders(
                all.subrange(i as int, n as int),
                depth as nat,
            ),
        decreases n - i,
    {
        let ghost tail = all.subrange(i as int, n as int);
        assert(tail[0] == entries@[i as int]@);
        assert(tail.drop_first() =~= all.subrange(i + 1, n as int));
        if let Entry::Dir(name, below) = &entries[i] {
            if let Some(found) = find_model_file_recursive(below, depth) {
                let mut path = found.path;
                let ghost inner = text_views(path@);
                path.insert(0, name.clone());
                proof {
                    assert(text_views(path@) =~= seq![name@] + inner);
                    assert(entries@[i as int]@ == Tree::Dir(name@, trees(below@)));
                    assert(find_model(trees(below@), depth as nat) is Some);
                }
                return Some(FoundModel { path: path, file: found.file, entries: found.entries });
            }
        }
        i += 1;
    }
    None
}

/// Whether a folder name carries a texture size tag.
pub fn has_size_tag(name: &str) -> (r: bool)
    ensures
        r == is_size_tagged(name@),
{
    ends_with(name, ".2048") || ends_with(name, ".4096") || ends_with(name, ".1024")
}

/// Whether a listing holds an image: a file whose name ends in `.png`.
pub fn holds_png(entries: &Vec<Entry>) -> (r: bool)
    ensures
        r == holds_image(trees(entries@)),
{
    let n = entries.len();
    let ghost all = trees(entries@);
    proof {
        lemma_trees(entries@);
    }
    let mut i: usize = 0;
    while i < n
        invariant
            n == entries@.len(),
            all == trees(entries@),
            all.len() == n,
            forall|k: int| 0 <= k < n ==> all[k] == (#[trigger] entries@[k])@,
            i <= n,
            forall|k: int|
                0 <= k < i ==> !((#[trigger] all[k]) is File && has_suffix(
                    name_of(all[k]),
                    ".png"@,
                )),
        decreases n - i,
    {
        if let Entry::File(name) = &entries[i] {
            if ends_with(name.as_str(), ".png") {
                assert(all[i as int] is File && has_suffix(name_of(all[i as int]), ".png"@));
                return true;
            }
        }
        i += 1;
    }
    false
}

/// The first folder of a listing that bears the mark.
fn first_folder_marked(entries: &Vec<Entry>, mark: &TextureMark) -> (r: Option<String>)
    ensures
        opt_view(r) == first_marked(trees(entries@), *mark),
{
    let n = entries.len();
    let ghost all = trees(entries@);
    proof {
        lemma_trees(entries@);
        assert(all.subrange(0, n as int) =~= all);
    }
    let mut i: usize = 0;
    while i < n
        invariant
            n == entries@.len(),
            all == trees(entries@),
            all.len() == n,
            forall|k: int| 0 <= k < n ==> all[k] == (#[trigger] entries@[k])@,
            i <= n,
            first_marked(all, *mark) == first_marked(all.subrange(i as int, n as int), *mark),
        decreases n - i,
    {
        let ghost tail = all.subrange(i as int, n as int);
        assert(tail[0] == entries@[i as int]@);
        assert(tail.drop_first() =~= all.subrange(i + 1, n as int));
        if let Entry::Dir(name, below) = &entries[i] {
            let marked = match mark {
                TextureMark::SizeTag => has_size_tag(name.as_str()),
                TextureMark::Named => same_text(name.as_str(), "textures"),
                TextureMark::HoldsImage => holds_png(below),
            };
            if marked {
                return Some(name.clone());
            }
        }
        i += 1;
    }
    None
}

/// The texture folder of a model folder, by the listing of that folder: the
/// first folder with a size tag; else the first folder named `textures`;
/// else the first folder that holds an image; else none.
pub fn find_texture_folder(entries: &Vec<Entry>) -> (r: Option<String>)
    ensures
        opt_view(r) == texture_folder(trees(entries@)),
{
    if let Some(name) = first_folder_marked(entries, &TextureMark::SizeTag) {
        return Some(name);
    }
    if let Some(name) = first_folder_marked(entries, &TextureMark::Named) {
        return Some(name);
    }
    first_folder_marked(entries, &TextureMark::HoldsImage)
}

/// The names of a listing, in order.
pub open spec fn names(entries: Seq<Tree>) -> Seq<Seq<char>> {
    Seq::new(entries.len(), |i: int| name_of(entries[i]))
}

/// The entries of a listing that do not carry `name`, in order.
pub open spec fn others(entries: Seq<Tree>, name: Seq<char>) -> Seq<Tree>
    decreases entries.len(),
{
    if entries.len() == 0 {
        Seq::empty()
    } else if name_of(entries.last()) == name {
        others(entries.drop_last(), name)
    } else {
        others(entries.drop_last(), name).push(entries.last())
    }
}

/// The first entry of a listing that carries `name`.
pub open spec fn first_named(entries: Seq<Tree>, name: Seq<char>) -> Option<Tree>
    decreases entries.len(),
{
    if entries.len() == 0 {
        None
    } else if name_of(entries[0]) == name {
        Some(entries[0])
    } else {
        first_named(entries.drop_first(), name)
    }
}

/// A flat bundle gathered into a folder of its own: the folder's name, the
/// names of the entries moved into it, and its listing afterwards.
pub ghost struct Gathered {
    pub folder: Seq<char>,
    pub moved: Seq<Seq<char>>,
    pub entries: Seq<Tree>,
}

/// The folder that a flat bundle is gathered into is named after the
/// descriptor, without its `.model3.json`.
pub open spec fn model_name(file: Seq<char>) -> Seq<char> {
    without_suffix(file, ".model3.json"@)
}

/// Gathering a flat bundle whose descriptor is `file`.  Every entry of the
/// top level moves into the folder named after the descriptor, but for an
/// entry that carries that very name: a folder of that name is kept, with
/// what it held before the rest; anything else of that name blocks the
/// gathering.  Where the name is empty the top level itself is the folder.
pub open spec fn gathered(root: Seq<Tree>, file: Seq<char>) -> Option<Gathered> {
    let folder = model_name(file);
    if folder.len() == 0 {
        Some(Gathered { folder: folder, moved: names(root), entries: root })
    } else {
        match first_named(root, folder) {
            None => Some(Gathered { folder: folder, moved: names(root), entries: root }),
            Some(Tree::Dir(_, below)) => Some(
                Gathered {
                    folder: folder,
                    moved: names(others(root, folder)),
                    entries: below + others(root, folder),
                },
            ),
            Some(_) => None,
        }
    }
}

/// The top level after a gathering: the one folder, or the top level as it
/// was where the folder's name is empty.
pub open spec fn gathered_root(root: Seq<Tree>, g: Gathered) -> Seq<Tree> {
    if g.folder.len() == 0 {
        root
    } else {
        seq![Tree::Dir(g.folder, g.entries)]
    }
}

/// A path written out: its parts with `/` between them.
pub open spec fn joined(parts: Seq<Seq<char>>) -> Seq<char>
    decreases parts.len(),
{
    if parts.len() == 0 {
        Seq::empty()
    } else if parts.len() == 1 {
        parts[0]
    } else {
        joined(parts.drop_last()) + "/"@ + parts.last()
    }
}

/// A path written out, with `/` between its parts.
pub fn join_parts(parts: &Vec<String>) -> (r: String)
    ensures
        r@ == joined(text_views(parts@)),
{
    let n = parts.len();
    let ghost all = text_views(parts@);
    let mut r = String::new();
    let mut i: usize = 0;
    assert(all.subrange(0, 0) =~= Seq::<Seq<char>>::empty());
    while i < n
        invariant
            n == parts@.len(),
            all == text_views(parts@),
            i <= n,
            r@ == joined(all.subrange(0, i as int)),
        decreases n - i,
    {
        let ghost before = all.subrange(0, i as int);
        let ghost next = all.subrange(0, i + 1);
        assert(next.drop_last() =~= before);
        assert(next.last() == parts@[i as int]@);
        if i > 0 {
            r.append("/");
        } else {
            assert(r@ + parts@[i as int]@ =~= parts@[i as int]@);
        }
        r.append(parts[i].as_str());
        i += 1;
    }
    assert(all.subrange(0, n as int) =~= all);
    r
}

/// The result of gathering a flat bundle.
#[derive(Debug)]
pub struct Reorganized {
    /// The folder that now holds the model, relative to the bundle's root.
    pub folder: String,
    /// The names of the top-level entries to move into the folder, in order.
    pub moved: Vec<String>,
    /// The top level of the bundle afterwards.
    pub root: Vec<Entry>,
}

/// The index of the first entry that carries `name`.
fn position_named(entries: &Vec<Entry>, name: &str) -> (r: Option<usize>)
    ensures
        match r {
            Some(i) => i < entries@.len() && first_named(trees(entries@), name@) == Some(
                entries@[i as int]@,
            ) && name_of(entries@[i as int]@) == name@,
            None => first_named(trees(entries@), name@) is None,
        },
{
    let n = entries.len();
    let ghost all = trees(entries@);
    proof {
        lemma_trees(entries@);
        assert(all.subrange(0, n as int) =~= all);
    }
    let mut i: usize = 0;
    while i < n
        invariant
            n == entries@.len(),
            all == trees(entries@),
            all.len() == n,
            forall|k: int| 0 <= k < n ==> all[k] == (#[trigger] entries@[k])@,
            i <= n,
            first_named(all, name@) == first_named(all.subrange(i as int, n as int), name@),
        decreases n - i,
    {
        let ghost tail = all.subrange(i as int, n as int);
        assert(tail[0] == entries@[i as int]@);
        assert(tail.drop_first() =~= all.subrange(i + 1, n as int));
        if same_text(entries[i].name().as_str(), name) {
            return Some(i);
        }
        i += 1;
    }
    None
}

/// The names of a listing, in order.
fn entry_names(entries: &Vec<Entry>) -> (r: Vec<String>)
    ensures
        text_views(r@) == names(trees(entries@)),
{
    let n = entries.len();
    proof {
        lemma_trees(entries@);
    }
    let mut r: Vec<String> = Vec::new();
    let mut i: usize = 0;
    while i < n
        invariant
            n == entries@.len(),
            i <= n,
            r@.len() == i,
            forall|k: int| 0 <= k < i ==> (#[trigger] r@[k])@ == name_of(entries@[k]@),
        decreases n - i,
    {
        r.push(entries[i].name().clone());
        i += 1;
    }
    assert(text_views(r@) =~= names(trees(entries@)));
    r
}

/// Takes a listing apart: the entries that do not carry `name`, in order,
/// and the listing of the entry at `at` where that entry is a folder.
fn split_named(root: Vec<Entry>, name: &str, at: usize) -> (r: (Vec<Entry>, Vec<Entry>))
    requires
        at < root@.len(),
        root@[at as int]@ is Dir,
        name_of(root@[at as int]@) == name@,
    ensures
        trees(r.1@) == others(trees(root@), name@),
        (root@[at as int]@ matches Tree::Dir(_, below) && trees(r.0@) == below),
{
    let ghost all = trees(root@);
    let ghost orig = root@;
    let n = root.len();
    proof {
        lemma_trees(root@);
    }
    let mut root = root;
    let mut rest: Vec<Entry> = Vec::new();
    let mut kept: Vec<Entry> = Vec::new();
    let mut i: usize = 0;
    assert(all.subrange(0, 0) =~= Seq::<Tree>::empty());
    assert(trees(rest@) =~= Seq::<Tree>::empty());
    while root.len() > 0
        invariant
            n == orig.len(),
            all == trees(orig),
            all.len() == n,
            forall|k: int| 0 <= k < n ==> all[k] == (#[trigger] orig[k])@,
            i <= n,
            at < n,
            orig[at as int]@ is Dir,
            name_of(orig[at as int]@) == name@,
            root@ == orig.subrange(i as int, n as int),
            trees(rest@) == others(all.subrange(0, i as int), name@),
            i > at ==> (orig[at as int]@ matches Tree::Dir(_, below) && trees(kept@) == below),
        decreases root@.len(),
    {
        let ghost rest_before = rest@;
        let entry = root.remove(0);
        proof {
            assert(entry == orig[i as int]);
            assert(root@ =~= orig.subrange(i + 1, n as int));
            let before = all.subrange(0, i as int);
            let next = all.subrange(0, i + 1);
            assert(next.drop_last() =~= before);
            assert(next.last() == entry@);
        }
        let same = same_text(entry.name().as_str(), name);
        if i == at {
            if let Entry::Dir(_, below) = entry {
                kept = below;
            }
        } else if !same {
            rest.push(entry);
        }
        proof {
            if !same {
                assert(rest@.drop_last() =~= rest_before);
            }
        }
        i += 1;
    }
    assert(all.subrange(0, n as int) =~= all);
    (kept, rest)
}

/// Gathers a flat bundle into a folder named after its descriptor: every
/// top-level entry moves into that folder, and a folder of that name that is
/// already there is kept as it is and receives the rest.  Fails where
/// something other than a folder carries the name.
pub fn reorganize_flat_model(root: Vec<Entry>, model_filename: &str) -> (r: Result<
    Reorganized,
    CoreError,
>)
    ensures
        match r {
            Ok(done) => gathered(trees(root@), model_filename@) matches Some(g) && done.folder@
                == g.folder && text_views(done.moved@) == g.moved && trees(done.root@)
                == gathered_root(trees(root@), g),
            Err(e) => gathered(trees(root@), model_filename@) is None && (e matches CoreError::Filesystem(
                m,
            ) && m@ == "Failed to create model folder: "@ + model_name(model_filename@)),
        },
{
    let folder = strip_suffix(model_filename, ".model3.json");
    let ghost all = trees(root@);
    if folder.as_str().unicode_len() == 0 {
        let moved = entry_names(&root);
        return Ok(Reorganized { folder: folder, moved: moved, root: root });
    }
    match position_named(&root, folder.as_str()) {
        None => {
            let moved = entry_names(&root);
            let mut top: Vec<Entry> = Vec::new();
            top.push(Entry::Dir(folder.clone(), root));
            proof {
                lemma_trees(top@);
                assert(trees(top@) =~= seq![Tree::Dir(folder@, all)]);
            }
            Ok(Reorganized { folder: folder, moved: moved, root: top })
        },
        Some(at) => {
            let is_dir = match &root[at] {
                Entry::Dir(_, _) => true,
                _ => false,
            };
            if !is_dir {
                return Err(
                    CoreError::Filesystem(
                        String::from_str("Failed to create model folder: ").concat(folder.as_str()),
                    ),
                );
            }
            let (kept, rest) = split_named(root, folder.as_str(), at);
            let moved = entry_names(&rest);
            let mut entries = kept;
            let ghost below = trees(entries@);
            let mut rest = rest;
            proof {
                lemma_trees(entries@);
                lemma_trees(rest@);
            }
            let ghost kept_seq = entries@;
            let ghost rest_seq = rest@;
            entries.append(&mut rest);
            proof {
                lemma_trees(entries@);
                assert(entries@ == kept_seq + rest_seq);
                assert(trees(rest_seq) == others(all, folder@));
                assert forall|k: int| 0 <= k < entries@.len() implies trees(entries@)[k] == (below
                    + others(all, folder@))[k] by {
                    if k < kept_seq.len() {
                        assert(entries@[k] == kept_seq[k]);
                    } else {
                        assert(entries@[k] == rest_seq[k - kept_seq.len()]);
                    }
                }
                assert(trees(entries@) =~= below + others(all, folder@));
            }
            let mut top: Vec<Entry> = Vec::new();
            top.push(Entry::Dir(folder.clone(), entries));
            proof {
                lemma_trees(top@);
                assert(trees(top@) =~= seq![Tree::Dir(folder@, below + others(all, folder@))]);
            }
            Ok(Reorganized { folder: folder, moved: moved, root: top })
        },
    }
}

/// Whether a listing holds an entry whose name ends in `.model3.json`.
pub open spec fn names_descriptor(entries: Seq<Tree>) -> bool {
    exists|i: int|
        0 <= i < entries.len() && has_suffix(name_of(#[trigger] entries[i]), ".model3.json"@)
}

/// Whether a folder picked by the user holds a model: an entry of its top
/// level carries a descriptor's name, or one of its folders holds a
/// descriptor within reach.
pub open spec fn folder_holds_model(entries: Seq<Tree>) -> bool {
    names_descriptor(entries) || find_in_folders(entries, MAX_MODEL_SEARCH_DEPTH as nat) is Some
}

/// Whether a folder picked by the user holds a model, by its listing.
pub fn holds_model(entries: &Vec<Entry>) -> (r: bool)
    ensures
        r == folder_holds_model(trees(entries@)),
{
    let n = entries.len();
    let ghost all = trees(entries@);
    proof {
        lemma_trees(entries@);
    }
    let mut i: usize = 0;
    while i < n
        invariant
            n == entries@.len(),
            all == trees(entries@),
            all.len() == n,
            forall|k: int| 0 <= k < n ==> all[k] == (#[trigger] entries@[k])@,
            i <= n,
            forall|k: int| 0 <= k < i ==> !has_suffix(name_of(#[trigger] all[k]), ".model3.json"@),
        decreases n - i,
    {
        if ends_with(entries[i].name().as_str(), ".model3.json") {
            assert(has_suffix(name_of(all[i as int]), ".model3.json"@));
            return true;
        }
        i += 1;
    }
    find_in_listing(entries, MAX_MODEL_SEARCH_DEPTH).is_some()
}

/// The canonical layout of a bundle, and what normalizing it takes.
#[derive(Debug)]
pub struct Detected {
    /// The model folder, relative to the bundle's root, `/` between parts.
    pub folder: String,
    /// The descriptor inside the model folder.
    pub model_file: String,
    /// The texture folder inside the model folder, if one was found.
    pub texture_folder: Option<String>,
    /// Whether the bundle was flat and is gathered into the model folder.
    pub flat: bool,
    /// The names of the top-level entries to move into the model folder.
    pub moved: Vec<String>,
    /// The top level of the bundle once it is normalized.
    pub root: Vec<Entry>,
}

/// A detected layout as a value.
pub ghost struct DetectedView {
    pub folder: Seq<char>,
    pub model_file: Seq<char>,
    pub texture_folder: Option<Seq<char>>,
    pub flat: bool,
    pub moved: Seq<Seq<char>>,
    pub root: Seq<Tree>,
}

impl View for Detected {
    type V = DetectedView;

    open spec fn view(&self) -> DetectedView {
        DetectedView {
            folder: self.folder@,
            model_file: self.model_file@,
            texture_folder: opt_view(self.texture_folder),
            flat: self.flat,
            moved: text_views(self.moved@),
            root: trees(self.root@),
        }
    }
}

/// The layout of a bundle.  A descriptor at the top level makes the bundle
/// flat: it is gathered into a folder named after the descriptor.  Else the
/// top-level folders are searched in listing order, each three levels deep,
/// and the first one that holds a model wins.  The texture folder is looked
/// for in the model folder.
pub open spec fn detected(root: Seq<Tree>) -> Option<DetectedView> {
    match first_descriptor(root) {
        Some(file) => match gathered(root, file) {
            Some(g) => Some(
                DetectedView {
                    folder: g.folder,
                    model_file: file,
                    texture_folder: texture_folder(g.entries),
                    flat: true,
                    moved: g.moved,
                    root: gathered_root(root, g),
                },
            ),
            None => None,
        },
        None => match find_in_folders(root, MAX_MODEL_SEARCH_DEPTH as nat) {
            Some(found) => Some(
                DetectedView {
                    folder: joined(found.path),
                    model_file: found.file,
                    texture_folder: texture_folder(found.entries),
                    flat: false,
                    moved: Seq::empty(),
                    root: root,
                },
            ),
            None => None,
        },
    }
}

/// Why a bundle has no layout: something other than a folder carries the
/// name of the folder that a flat bundle is to be gathered into, or no
/// descriptor is within reach below the root that was examined.
pub open spec fn detect_error(root_path: Seq<char>, root: Seq<Tree>) -> ErrorView {
    match first_descriptor(root) {
        Some(file) => ErrorView::Filesystem("Failed to create model folder: "@ + model_name(file)),
        None => ErrorView::NoModelFound(root_path),
    }
}

/// Finds the layout of an unpacked bundle from the listing of its root
/// and says what normalizing it takes.  `root_path` is the root that was
/// listed.  Fails with `NoModelFound`, which holds that root, where the
/// bundle holds no descriptor within reach, and with a file-system error
/// where a flat bundle cannot be gathered.
pub fn detect_model_structure(root_path: &str, root: Vec<Entry>) -> (r: Result<Detected, CoreError>)
    ensures
        match r {
            Ok(d) => detected(trees(root@)) == Some(d@),
            Err(e) => detected(trees(root@)) is None && e@ == detect_error(
                root_path@,
                trees(root@),
            ),
        },
{
    let ghost all = trees(root@);
    if let Some(file) = first_model_file(&root) {
        match reorganize_flat_model(root, file.as_str()) {
            Ok(done) => {
                proof {
                    lemma_trees(done.root@);
                }
                let texture = if done.folder.as_str().unicode_len() == 0 {
                    find_texture_folder(&done.root)
                } else {
                    match &done.root[0] {
                        Entry::Dir(_, entries) => find_texture_folder(entries),
                        _ => None,
                    }
                };
                Ok(
                    Detected {
                        folder: done.folder,
                        model_file: file,
                        texture_folder: texture,
                        flat: true,
                        moved: done.moved,
                        root: done.root,
                    },
                )
            },
            Err(e) => Err(e),
        }
    } else {
        let found = find_in_listing(&root, MAX_MODEL_SEARCH_DEPTH);
        match found {
            Some(found) => {
                let folder = join_parts(&found.path);
                let texture = find_texture_folder(found.entries);
                let model_file = found.file;
                proof {
                    assert(text_views(Seq::<String>::empty()) =~= Seq::<Seq<char>>::empty());
                }
                Ok(
                    Detected {
                        folder: folder,
                        model_file: model_file,
                        texture_folder: texture,
                        flat: false,
                        moved: Vec::new(),
                        root: root,
                    },
                )
            },
            None => Err(CoreError::NoModelFound(String::from_str(root_path))),
        }
    }
}

} // verus!
