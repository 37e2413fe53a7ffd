//! Path algebra on text: the components of a path, the directory that a batch
//! of paths shares, and the dotted module name of a file below a root.
//!
//! A path is read as POSIX does: `/` separates, a leading `/` is the root,
//! empty pieces and `.` pieces between separators carry no meaning, and a
//! leading `.` is kept. Nothing here touches the file system.
use vstd::prelude::*;
use crate::text::{
    chars_of, lemma_split_has_no_separator, lemma_split_nonempty, lemma_split_of_one_more,
    lemma_split_of_one_piece, same_text, split, split_chars,
    string_of, texts,
};

verus! {

/// The text held by each string of `items`.
pub open spec fn string_texts(items: Seq<String>) -> Seq<Seq<char>> {
    Seq::new(items.len(), |i: int| items[i]@)
}

/// The pieces of `path` between separators, empty pieces included.
pub open spec fn pieces(path: Seq<char>) -> Seq<Seq<char>> {
    split(path, '/')
}

/// The root component.
pub open spec fn root_text() -> Seq<char> {
    seq!['/']
}

/// The component that stands for the current directory.
pub open spec fn dot_text() -> Seq<char> {
    seq!['.']
}

/// The component that stands for the parent directory.
pub open spec fn dot_dot_text() -> Seq<char> {
    seq!['.', '.']
}

/// A piece that is a component wherever it stands: neither empty nor `.`.
pub open spec fn is_named(piece: Seq<char>) -> bool {
    piece.len() > 0 && piece != dot_text()
}

/// The pieces that are components wherever they stand, in order.
pub open spec fn named(all: Seq<Seq<char>>) -> Seq<Seq<char>>
    decreases all.len(),
{
    if all.len() == 0 {
        Seq::empty()
    } else if is_named(all.last()) {
        named(all.drop_last()).push(all.last())
    } else {
        named(all.drop_last())
    }
}

/// What the start of `path` contributes: the root for an absolute path, `.`
/// for a path whose first piece is `.`, and nothing otherwise.
pub open spec fn leading(path: Seq<char>) -> Seq<Seq<char>> {
    if path.len() > 0 && path[0] == '/' {
        seq![root_text()]
    } else if pieces(path)[0] == dot_text() {
        seq![dot_text()]
    } else {
        Seq::empty()
    }
}

/// The components of `path`.
pub open spec fn components(path: Seq<char>) -> Seq<Seq<char>> {
    leading(path) + named(pieces(path))
}

/// The components of each path of `paths`.
pub open spec fn all_components(paths: Seq<Seq<char>>) -> Seq<Seq<Seq<char>>> {
    Seq::new(paths.len(), |i: int| components(paths[i]))
}

/// The path text that `parts` spell: each part is appended, after a separator
/// unless the text so far is empty or ends in one.
pub open spec fn joined(parts: Seq<Seq<char>>) -> Seq<char>
    decreases parts.len(),
{
    if parts.len() == 0 {
        Seq::empty()
    } else {
        let before = joined(parts.drop_last());
        if before.len() == 0 || before.last() == '/' {
            before + parts.last()
        } else {
            before.push('/') + parts.last()
        }
    }
}

/// The components of the directory that holds the last component.
pub open spec fn parent_of(parts: Seq<Seq<char>>) -> Seq<Seq<char>> {
    if parts.len() == 0 {
        parts
    } else {
        parts.drop_last()
    }
}

/// The longest sequence of components with which both `a` and `b` begin.
pub open spec fn shared_prefix(a: Seq<Seq<char>>, b: Seq<Seq<char>>) -> Seq<Seq<char>>
    decreases a.len(),
{
    if a.len() == 0 || b.len() == 0 || a[0] != b[0] {
        Seq::empty()
    } else {
        seq![a[0]] + shared_prefix(a.drop_first(), b.drop_first())
    }
}

/// The longest sequence of components with which every member of `batch`
/// begins; for an empty batch, nothing.
pub open spec fn shared_by_all(batch: Seq<Seq<Seq<char>>>) -> Seq<Seq<char>>
    decreases batch.len(),
{
    if batch.len() == 0 {
        Seq::empty()
    } else if batch.len() == 1 {
        batch[0]
    } else {
        shared_prefix(shared_by_all(batch.drop_last()), batch.last())
    }
}

/// The directory that a batch of paths shares: none for an empty batch, the
/// parent of a lone path, and for several paths their longest common run of
/// leading components, or none where they have no first component in common.
pub open spec fn common_parent(paths: Seq<Seq<char>>) -> Option<Seq<char>> {
    if paths.len() == 0 {
        None
    } else if paths.len() == 1 {
        Some(joined(parent_of(components(paths[0]))))
    } else {
        let shared = shared_by_all(all_components(paths));
        if shared.len() == 0 {
            None
        } else {
            Some(joined(shared))
        }
    }
}

/// A component that names a file or directory: not the root, `.` or `..`.
pub open spec fn is_file_name(component: Seq<char>) -> bool {
    component != root_text() && component != dot_text() && component != dot_dot_text()
}

/// The position of the last `.` in `name`, or -1 where it has none.
pub open spec fn last_dot(name: Seq<char>) -> int
    decreases name.len(),
{
    if name.len() == 0 {
        -1
    } else if name.last() == '.' {
        name.len() - 1
    } else {
        last_dot(name.drop_last())
    }
}

/// A file name without its extension: what stands before the last `.`, or the
/// whole name where it has no `.` or only a leading one.
pub open spec fn stem(name: Seq<char>) -> Seq<char> {
    if last_dot(name) <= 0 {
        name
    } else {
        name.take(last_dot(name))
    }
}

/// `text` with every `/` and `\` replaced by `.`.
pub open spec fn dotted(text: Seq<char>) -> Seq<char> {
    Seq::new(text.len(), |i: int| if text[i] == '/' || text[i] == '\\' { '.' } else { text[i] })
}

/// Whether `path` lies below the directory `root`: it begins with the
/// components of `root` and has more. The root itself does not lie below
/// itself.
pub open spec fn lies_below(root: Seq<char>, path: Seq<char>) -> bool {
    components(root).is_prefix_of(components(path)) && components(path).len() > components(
        root,
    ).len()
}

/// The dotted module name of the file `path` below the directory `root`: the
/// components of `path` that follow those of `root`, the last of them
/// replaced by its stem, separated by `.`. There is none where `path` does
/// not lie below `root`, or does not end in a file name.
pub open spec fn module_name(root: Seq<char>, path: Seq<char>) -> Option<Seq<char>> {
    if !lies_below(root, path) || !is_file_name(components(path).last()) {
        None
    } else {
        let below = components(path).skip(components(root).len() as int);
        Some(dotted(joined(below.drop_last().push(stem(below.last())))))
    }
}

/// Whether `piece` is the single character `.`.
fn is_dot(piece: &Vec<char>) -> (dot: bool)
    ensures
        dot == (piece@ == dot_text()),
{
    if piece.len() == 1 && piece[0] == '.' {
        assert(piece@ =~= dot_text());
        true
    } else {
        false
    }
}

/// Whether `piece` is the two characters `..`.
fn is_dot_dot(piece: &Vec<char>) -> (dot_dot: bool)
    ensures
        dot_dot == (piece@ == dot_dot_text()),
{
    if piece.len() == 2 && piece[0] == '.' && piece[1] == '.' {
        assert(piece@ =~= dot_dot_text());
        true
    } else {
        false
    }
}

/// Whether `piece` is the single character `/`.
fn is_root(piece: &Vec<char>) -> (root: bool)
    ensures
        root == (piece@ == root_text()),
{
    if piece.len() == 1 && piece[0] == '/' {
        assert(piece@ =~= root_text());
        true
    } else {
        false
    }
}

/// The components of `path`, each as its characters.
pub fn path_components(path: &str) -> (out: Vec<Vec<char>>)
    ensures
        texts(out@) == components(path@),
{
    let chars = chars_of(path);
    let all = split_chars(&chars, '/');
    proof {
        lemma_split_nonempty(path@, '/');
    }
    let mut out: Vec<Vec<char>> = Vec::new();
    if chars.len() > 0 && chars[0] == '/' {
        let mut root: Vec<char> = Vec::new();
        root.push('/');
        assert(root@ =~= root_text());
        out.push(root);
    } else if is_dot(&all[0]) {
        let mut dot: Vec<char> = Vec::new();
        dot.push('.');
        assert(dot@ =~= dot_text());
        out.push(dot);
    }
    assert(texts(out@) =~= leading(path@));
    let ghost all_texts = texts(all@);
    for piece in it: all
        invariant
            texts(it.seq()) == all_texts,
            all_texts == pieces(path@),
            texts(out@) == leading(path@) + named(all_texts.take(it.index() as int)),
    {
        let ghost k = it.index() as int;
        proof {
            assert(all_texts.take(k + 1).drop_last() == all_texts.take(k));
            assert(all_texts.take(k + 1).last() == piece@);
        }
        if piece.len() > 0 && !is_dot(&piece) {
            let ghost before = texts(out@);
            out.push(piece);
            assert(texts(out@) =~= before.push(all_texts[k]));
        }
    }
    assert(all_texts.take(all_texts.len() as int) == all_texts);
    out
}

/// Appends `part` to the path text in `buffer`, after a separator unless the
/// text is empty or ends in one.
fn push_part(buffer: &mut Vec<char>, part: &Vec<char>)
    ensures
        final(buffer)@ == if old(buffer)@.len() == 0 || old(buffer)@.last() == '/' {
            old(buffer)@ + part@
        } else {
            old(buffer)@.push('/') + part@
        },
{
    let n = buffer.len();
    if n > 0 && buffer[n - 1] != '/' {
        buffer.push('/');
    }
    let ghost start = buffer@;
    let mut i: usize = 0;
    while i < part.len()
        invariant
            i <= part.len(),
            buffer@ == start + part@.take(i as int),
        decreases part.len() - i,
    {
        buffer.push(part[i]);
        assert(part@.take(i + 1) == part@.take(i as int).push(part@[i as int]));
        i += 1;
    }
    assert(part@.take(part.len() as int) == part@);
}

/// The path text spelled by the first `count` of `parts`.
fn join_parts(parts: &Vec<Vec<char>>, count: usize) -> (text: Vec<char>)
    requires
        count <= parts.len(),
    ensures
        text@ == joined(texts(parts@).take(count as int)),
{
    let mut text: Vec<char> = Vec::new();
    let mut i: usize = 0;
    while i < count
        invariant
            i <= count <= parts.len(),
            text@ == joined(texts(parts@).take(i as int)),
        decreases count - i,
    {
        proof {
            let upto = texts(parts@).take(i + 1);
            assert(upto.drop_last() == texts(parts@).take(i as int));
            assert(upto.last() == parts@[i as int]@);
        }
        push_part(&mut text, &parts[i]);
        i += 1;
    }
    text
}

/// How many leading components `a` and `b` have in common, `a` taken up to
/// `limit` only.
fn shared_count(a: &Vec<Vec<char>>, limit: usize, b: &Vec<Vec<char>>) -> (count: usize)
    requires
        limit <= a.len(),
    ensures
        count <= limit,
        texts(a@).take(count as int) == shared_prefix(texts(a@).take(limit as int), texts(b@)),
{
    let mut k: usize = 0;
    let ghost full = texts(a@).take(limit as int);
    let ghost other = texts(b@);
    proof {
        assert(full.skip(0) == full);
        assert(other.skip(0) == other);
        assert(full.take(0) + shared_prefix(full, other) == shared_prefix(full, other));
    }
    while k < limit && k < b.len() && same_text(&a[k], &b[k])
        invariant
            k <= limit <= a.len(),
            k <= b.len(),
            full == texts(a@).take(limit as int),
            other == texts(b@),
            shared_prefix(full, other) == full.take(k as int) + shared_prefix(
                full.skip(k as int),
                other.skip(k as int),
            ),
        decreases limit - k,
    {
        proof {
            let fa = full.skip(k as int);
            let fb = other.skip(k as int);
            assert(fa[0] == a@[k as int]@);
            assert(fb[0] == b@[k as int]@);
            assert(fa.drop_first() == full.skip(k + 1));
            assert(fb.drop_first() == other.skip(k + 1));
            assert(full.take(k + 1) == full.take(k as int) + seq![fa[0]]);
        }
        k += 1;
    }
    proof {
        let fa = full.skip(k as int);
        let fb = other.skip(k as int);
        if k < limit && k < b.len() {
            assert(fa[0] == a@[k as int]@);
            assert(fb[0] == b@[k as int]@);
        }
        assert(shared_prefix(fa, fb) == Seq::<Seq<char>>::empty());
        assert(full.take(k as int) == texts(a@).take(k as int));
    }
    k
}

/// The directory that the paths of a batch share.
///
/// An empty batch has none. A lone path gives its parent directory, which is
/// the empty path where it has no parent. Several paths give the longest run
/// of leading components that all of them have, and none where that run is
/// empty.
pub fn get_common_parent(paths: &[String]) -> (parent: Option<String>)
    ensures
        match parent {
            Some(text) => common_parent(string_texts(paths@)) == Some(text@),
            None => common_parent(string_texts(paths@)) is None,
        },
{
    if paths.len() == 0 {
        return None;
    }
    let first = path_components(paths[0].as_str());
    if paths.len() == 1 {
        let keep = if first.len() == 0 {
            0
        } else {
            first.len() - 1
        };
        let text = join_parts(&first, keep);
        proof {
            let parts = texts(first@);
            assert(parts == components(string_texts(paths@)[0]));
            if parts.len() == 0 {
                assert(parts.take(0) == parts);
            } else {
                assert(parts.take(keep as int) == parts.drop_last());
            }
        }
        return Some(string_of(&text));
    }
    let ghost batch = all_components(string_texts(paths@));
    let mut count: usize = first.len();
    let mut i: usize = 1;
    proof {
        assert(batch.take(1) == seq![batch[0]]);
        assert(texts(first@).take(count as int) == texts(first@));
    }
    while i < paths.len()
        invariant
            1 <= i <= paths.len(),
            count <= first.len(),
            batch == all_components(string_texts(paths@)),
            texts(first@).take(count as int) == shared_by_all(batch.take(i as int)),
        decreases paths.len() - i,
    {
        let next = path_components(paths[i].as_str());
        proof {
            let upto = batch.take(i + 1);
            assert(upto.drop_last() == batch.take(i as int));
            assert(upto.last() == texts(next@));
        }
        count = shared_count(&first, count, &next);
        i += 1;
    }
    proof {
        assert(batch.take(paths.len() as int) == batch);
    }
    if count == 0 {
        None
    } else {
        let text = join_parts(&first, count);
        Some(string_of(&text))
    }
}

/// Whether `full` begins with all the components of `base`.
fn begins_with(full: &Vec<Vec<char>>, base: &Vec<Vec<char>>) -> (begins: bool)
    ensures
        begins == texts(base@).is_prefix_of(texts(full@)),
{
    if base.len() > full.len() {
        return false;
    }
    let mut i: usize = 0;
    while i < base.len()
        invariant
            i <= base.len() <= full.len(),
            texts(base@).take(i as int) == texts(full@).take(i as int),
        decreases base.len() - i,
    {
        if !same_text(&base[i], &full[i]) {
            proof {
                let b = texts(base@);
                let f = texts(full@);
                assert(b[i as int] != f.subrange(0, b.len() as int)[i as int]);
            }
            return false;
        }
        proof {
            let b = texts(base@);
            let f = texts(full@);
            assert(b.take(i + 1) == b.take(i as int).push(b[i as int]));
            assert(f.take(i + 1) == f.take(i as int).push(f[i as int]));
        }
        i += 1;
    }
    proof {
        let b = texts(base@);
        let f = texts(full@);
        assert(b.take(b.len() as int) == b);
        assert(f.take(b.len() as int) == f.subrange(0, b.len() as int));
    }
    true
}

/// The stem of the file name `name`.
fn file_stem(name: &Vec<char>) -> (out: Vec<char>)
    ensures
        out@ == stem(name@),
{
    let mut end: usize = name.len();
    proof {
        assert(name@.take(end as int) == name@);
    }
    while end > 0 && name[end - 1] != '.'
        invariant
            end <= name.len(),
            last_dot(name@) == last_dot(name@.take(end as int)),
        decreases end,
    {
        proof {
            assert(name@.take(end as int).drop_last() == name@.take(end - 1));
        }
        end -= 1;
    }
    let keep = if end <= 1 {
        name.len()
    } else {
        end - 1
    };
    let mut out: Vec<char> = Vec::new();
    let mut i: usize = 0;
    while i < keep
        invariant
            i <= keep <= name.len(),
            out@ == name@.take(i as int),
        decreases keep - i,
    {
        out.push(name[i]);
        assert(name@.take(i + 1) == name@.take(i as int).push(name@[i as int]));
        i += 1;
    }
    proof {
        assert(name@.take(name.len() as int) == name@);
    }
    out
}

/// The dotted module name of the rule file `rule_path` below the directory
/// `modules_dir_path`.
///
/// There is none where the file does not lie below the directory, component
/// by component, and so none for the directory itself; and none where the
/// path does not end in a file name. Otherwise the components between the
/// two and the stem of the file name are joined, and every `/` and `\` in
/// the result becomes a `.`.
pub fn get_module_name(modules_dir_path: &str, rule_path: &str) -> (name: Option<String>)
    ensures
        match name {
            Some(text) => module_name(modules_dir_path@, rule_path@) == Some(text@),
            None => module_name(modules_dir_path@, rule_path@) is None,
        },
{
    let base = path_components(modules_dir_path);
    let full = path_components(rule_path);
    if !begins_with(&full, &base) || full.len() <= base.len() {
        return None;
    }
    let last = &full[full.len() - 1];
    if is_root(last) || is_dot(last) || is_dot_dot(last) {
        return None;
    }
    let name_stem = file_stem(last);
    let ghost all = texts(full@);
    let ghost below = all.skip(base.len() as int);
    let mut text: Vec<char> = Vec::new();
    let mut i: usize = base.len();
    let end: usize = full.len() - 1;
    proof {
        assert(all.subrange(base.len() as int, i as int) == Seq::<Seq<char>>::empty());
    }
    while i < end
        invariant
            base.len() <= i <= end < full.len(),
            all == texts(full@),
            text@ == joined(all.subrange(base.len() as int, i as int)),
        decreases end - i,
    {
        proof {
            let upto = all.subrange(base.len() as int, i + 1);
            assert(upto.drop_last() == all.subrange(base.len() as int, i as int));
            assert(upto.last() == full@[i as int]@);
        }
        push_part(&mut text, &full[i]);
        i += 1;
    }
    proof {
        let dirs = all.subrange(base.len() as int, i as int);
        assert(dirs == below.drop_last());
        assert(below.last() == last@);
        assert(dirs.push(name_stem@).drop_last() == dirs);
    }
    push_part(&mut text, &name_stem);
    let mut out: Vec<char> = Vec::new();
    let mut k: usize = 0;
    while k < text.len()
        invariant
            k <= text.len(),
            out@ == dotted(text@.take(k as int)),
        decreases text.len() - k,
    {
        let c = text[k];
        let ghost before = out@;
        if c == '/' || c == '\\' {
            out.push('.');
        } else {
            out.push(c);
        }
        assert(out@ =~= dotted(text@.take(k + 1)));
        k += 1;
    }
    proof {
        assert(text@.take(text.len() as int) == text@);
    }
    Some(string_of(&out))
}

/// What two paths share is the start of both.
pub proof fn lemma_shared_prefix_is_prefix(a: Seq<Seq<char>>, b: Seq<Seq<char>>)
    ensures
        shared_prefix(a, b).is_prefix_of(a),
        shared_prefix(a, b).is_prefix_of(b),
    decreases a.len(),
{
    if a.len() == 0 || b.len() == 0 || a[0] != b[0] {
    } else {
        lemma_shared_prefix_is_prefix(a.drop_first(), b.drop_first());
        let rest = shared_prefix(a.drop_first(), b.drop_first());
        let whole = seq![a[0]] + rest;
        assert(whole =~= a.subrange(0, whole.len() as int)) by {
            assert forall|i: int| 0 <= i < whole.len() implies whole[i] == a[i] by {
                if i > 0 {
                    assert(rest[i - 1] == a.drop_first()[i - 1]);
                }
            }
        }
        assert(whole =~= b.subrange(0, whole.len() as int)) by {
            assert forall|i: int| 0 <= i < whole.len() implies whole[i] == b[i] by {
                if i > 0 {
                    assert(rest[i - 1] == b.drop_first()[i - 1]);
                }
            }
        }
    }
}

/// Nothing longer is shared: every run of components with which both paths
/// begin is the start of what they share.
pub proof fn lemma_shared_prefix_is_longest(
    a: Seq<Seq<char>>,
    b: Seq<Seq<char>>,
    run: Seq<Seq<char>>,
)
    requires
        run.is_prefix_of(a),
        run.is_prefix_of(b),
    ensures
        run.is_prefix_of(shared_prefix(a, b)),
    decreases a.len(),
{
    if run.len() > 0 {
        assert(run[0] == a.subrange(0, run.len() as int)[0]);
        assert(run[0] == b.subrange(0, run.len() as int)[0]);
        let tail = run.drop_first();
        assert(tail =~= a.drop_first().subrange(0, tail.len() as int)) by {
            assert forall|i: int| 0 <= i < tail.len() implies tail[i] == a.drop_first()[i] by {
                assert(run[i + 1] == a.subrange(0, run.len() as int)[i + 1]);
            }
        }
        assert(tail =~= b.drop_first().subrange(0, tail.len() as int)) by {
            assert forall|i: int| 0 <= i < tail.len() implies tail[i] == b.drop_first()[i] by {
                assert(run[i + 1] == b.subrange(0, run.len() as int)[i + 1]);
            }
        }
        lemma_shared_prefix_is_longest(a.drop_first(), b.drop_first(), tail);
        let rest = shared_prefix(a.drop_first(), b.drop_first());
        let whole = seq![a[0]] + rest;
        assert(run =~= whole.subrange(0, run.len() as int)) by {
            assert forall|i: int| 0 <= i < run.len() implies run[i] == whole[i] by {
                if i > 0 {
                    assert(tail[i - 1] == rest.subrange(0, tail.len() as int)[i - 1]);
                }
            }
        }
    }
}

/// What a batch shares is the start of each of its members.
pub proof fn lemma_shared_by_all_is_prefix(batch: Seq<Seq<Seq<char>>>, i: int)
    requires
        0 <= i < batch.len(),
    ensures
        shared_by_all(batch).is_prefix_of(batch[i]),
    decreases batch.len(),
{
    if batch.len() > 1 {
        let before = shared_by_all(batch.drop_last());
        lemma_shared_prefix_is_prefix(before, batch.last());
        if i < batch.len() - 1 {
            lemma_shared_by_all_is_prefix(batch.drop_last(), i);
            let shared = shared_by_all(batch);
            assert(shared =~= batch[i].subrange(0, shared.len() as int)) by {
                assert forall|k: int| 0 <= k < shared.len() implies shared[k] == batch[i][k] by {
                    assert(shared[k] == before.subrange(0, shared.len() as int)[k]);
                    assert(before[k] == batch.drop_last()[i].subrange(0, before.len() as int)[k]);
                }
            }
        }
    }
}

/// Nothing longer is shared by a batch: every run of components with which
/// all members begin is the start of what the batch shares.
pub proof fn lemma_shared_by_all_is_longest(batch: Seq<Seq<Seq<char>>>, run: Seq<Seq<char>>)
    requires
        batch.len() > 0,
        forall|i: int| 0 <= i < batch.len() ==> run.is_prefix_of(#[trigger] batch[i]),
    ensures
        run.is_prefix_of(shared_by_all(batch)),
    decreases batch.len(),
{
    if batch.len() > 1 {
        assert forall|i: int| 0 <= i < batch.drop_last().len() implies run.is_prefix_of(
            #[trigger] batch.drop_last()[i],
        ) by {
            assert(batch.drop_last()[i] == batch[i]);
        }
        lemma_shared_by_all_is_longest(batch.drop_last(), run);
        assert(run.is_prefix_of(batch[batch.len() - 1]));
        lemma_shared_prefix_is_longest(shared_by_all(batch.drop_last()), batch.last(), run);
    } else {
        assert(run.is_prefix_of(batch[0]));
    }
}

/// Whether all members of `batch` begin with one and the same component.
pub open spec fn share_first_component(batch: Seq<Seq<Seq<char>>>) -> bool {
    &&& batch.len() > 0
    &&& forall|i: int|
        0 <= i < batch.len() ==> (#[trigger] batch[i]).len() > 0 && batch[i][0] == batch[0][0]
}

/// Two or more paths that do not all begin with the same component have no
/// common parent.
pub proof fn lemma_nothing_shared_gives_none(paths: Seq<Seq<char>>)
    requires
        paths.len() >= 2,
        !share_first_component(all_components(paths)),
    ensures
        common_parent(paths) is None,
{
    let batch = all_components(paths);
    let shared = shared_by_all(batch);
    if shared.len() > 0 {
        assert forall|i: int| 0 <= i < batch.len() implies (#[trigger] batch[i]).len() > 0
            && batch[i][0] == shared[0] by {
            lemma_shared_by_all_is_prefix(batch, i);
            assert(shared[0] == batch[i].subrange(0, shared.len() as int)[0]);
        }
        assert(share_first_component(batch));
    }
}

/// Two or more paths that all begin with the same component have a common
/// parent, which begins with that component.
pub proof fn lemma_something_shared_gives_some(paths: Seq<Seq<char>>)
    requires
        paths.len() >= 2,
        share_first_component(all_components(paths)),
    ensures
        common_parent(paths) == Some(joined(shared_by_all(all_components(paths)))),
        shared_by_all(all_components(paths)).len() > 0,
{
    let batch = all_components(paths);
    let first = batch[0][0];
    let run = seq![first];
    assert forall|i: int| 0 <= i < batch.len() implies run.is_prefix_of(#[trigger] batch[i]) by {
        assert(batch[i].len() > 0 && batch[i][0] == first);
        assert(run =~= batch[i].subrange(0, 1));
    }
    lemma_shared_by_all_is_longest(batch, run);
}

/// The common parent of a lone path is its parent: the path spelled by its
/// components without the last. A path without components has the empty
/// path for its parent.
pub proof fn lemma_lone_path_gives_its_parent(path: Seq<char>)
    ensures
        common_parent(seq![path]) == Some(joined(parent_of(components(path)))),
        components(path).len() > 0 ==> parent_of(components(path)) == components(path).drop_last(),
        components(path).len() == 0 ==> joined(parent_of(components(path))) == Seq::<char>::empty(),
{
}

/// A component that is a plain name: not empty, and without a separator.
pub open spec fn is_plain(component: Seq<char>) -> bool {
    component.len() > 0 && forall|j: int| 0 <= j < component.len() ==> component[j] != '/'
}

/// Every member of `named(all)` is one of `all`, and is named.
pub proof fn lemma_named_members(all: Seq<Seq<char>>, k: int)
    requires
        0 <= k < named(all).len(),
    ensures
        is_named(named(all)[k]),
        exists|m: int| 0 <= m < all.len() && all[m] == named(all)[k],
    decreases all.len(),
{
    if all.len() > 0 {
        let before = named(all.drop_last());
        if is_named(all.last()) && k == before.len() {
            assert(all[all.len() - 1] == named(all)[k]);
        } else {
            lemma_named_members(all.drop_last(), k);
            let m = choose|m: int| 0 <= m < all.drop_last().len() && all.drop_last()[m] == before[k];
            assert(all[m] == named(all)[k]);
        }
    }
}

/// Every component is a plain name, but for the root, which stands first and
/// only in an absolute path.
pub proof fn lemma_components_are_plain(path: Seq<char>, k: int)
    requires
        0 <= k < components(path).len(),
    ensures
        is_plain(components(path)[k]) || (k == 0 && components(path)[k] == root_text()
            && path.len() > 0 && path[0] == '/'),
{
    let head = leading(path);
    if k >= head.len() {
        let all = pieces(path);
        let i = k - head.len();
        lemma_named_members(all, i);
        let m = choose|m: int| 0 <= m < all.len() && all[m] == named(all)[i];
        let piece = all[m];
        assert forall|j: int| 0 <= j < piece.len() implies piece[j] != '/' by {
            lemma_split_has_no_separator(path, '/', m, j);
        }
    } else {
        if path.len() > 0 && path[0] == '/' {
        } else {
            assert(components(path)[k] == dot_text());
        }
    }
}

/// `parts` with a `.` between each two.
pub open spec fn dot_joined(parts: Seq<Seq<char>>) -> Seq<char>
    decreases parts.len(),
{
    if parts.len() == 0 {
        Seq::empty()
    } else if parts.len() == 1 {
        parts[0]
    } else {
        dot_joined(parts.drop_last()).push('.') + parts.last()
    }
}

/// Each of `parts` with its `\` replaced by `.`.
pub open spec fn each_dotted(parts: Seq<Seq<char>>) -> Seq<Seq<char>> {
    Seq::new(parts.len(), |i: int| dotted(parts[i]))
}

/// The path spelled by plain names is not empty and does not end in a
/// separator.
pub proof fn lemma_joined_plain_ends_plain(parts: Seq<Seq<char>>)
    requires
        parts.len() > 0,
        forall|i: int| 0 <= i < parts.len() ==> is_plain(#[trigger] parts[i]),
    ensures
        joined(parts).len() > 0,
        joined(parts).last() != '/',
{
    let last = parts.last();
    assert(is_plain(parts[parts.len() - 1]));
    assert(last[last.len() - 1] != '/');
}

/// The path spelled by plain names, with its separators turned into dots, is
/// the names with a dot between each two.
pub proof fn lemma_dotted_path_is_dot_joined(parts: Seq<Seq<char>>)
    requires
        forall|i: int| 0 <= i < parts.len() ==> is_plain(#[trigger] parts[i]),
    ensures
        dotted(joined(parts)) == dot_joined(each_dotted(parts)),
    decreases parts.len(),
{
    if parts.len() == 0 {
        assert(dotted(joined(parts)) =~= Seq::<char>::empty());
    } else {
        let init = parts.drop_last();
        let last = parts.last();
        let before = joined(init);
        assert forall|i: int| 0 <= i < init.len() implies is_plain(#[trigger] init[i]) by {
            assert(init[i] == parts[i]);
        }
        lemma_dotted_path_is_dot_joined(init);
        assert(each_dotted(parts).drop_last() =~= each_dotted(init));
        assert(each_dotted(parts).last() == dotted(last));
        if init.len() == 0 {
            assert(before + last =~= last);
        } else {
            lemma_joined_plain_ends_plain(init);
            assert(dotted(before.push('/') + last) =~= dotted(before).push('.') + dotted(last));
        }
    }
}

/// The stem of a plain name is a plain name.
pub proof fn lemma_stem_is_plain(name: Seq<char>)
    requires
        is_plain(name),
    ensures
        is_plain(stem(name)),
{
    lemma_last_dot_in_range(name);
}

/// The last dot lies inside the name, where there is one.
pub proof fn lemma_last_dot_in_range(name: Seq<char>)
    ensures
        -1 <= last_dot(name) < name.len(),
    decreases name.len(),
{
    if name.len() > 0 && name.last() != '.' {
        lemma_last_dot_in_range(name.drop_last());
    }
}

/// A path that does not lie below the root has no module name; the root
/// itself is such a path.
pub proof fn lemma_module_name_needs_root(root: Seq<char>, path: Seq<char>)
    ensures
        !lies_below(root, path) ==> module_name(root, path) is None,
        module_name(root, root) is None,
{
}

/// The module name of a file below the root is made of the directories
/// between the two and the stem of the file name, each with its `\` turned
/// into `.`, and with a `.` between each two. This leaves out the one case
/// in which the root component would count among those directories: an
/// absolute path below a root without components.
pub proof fn lemma_module_name_is_dot_joined(root: Seq<char>, path: Seq<char>)
    requires
        lies_below(root, path),
        is_file_name(components(path).last()),
        components(root).len() > 0 || !(path.len() > 0 && path[0] == '/'),
    ensures
        module_name(root, path) == Some(
            dot_joined(
                each_dotted(
                    components(path).skip(components(root).len() as int).drop_last().push(
                        stem(components(path).last()),
                    ),
                ),
            ),
        ),
{
    let base = components(root);
    let full = components(path);
    let below = full.skip(base.len() as int);
    let parts = below.drop_last().push(stem(full.last()));
    assert(below.last() == full.last());
    lemma_components_are_plain(path, full.len() - 1);
    lemma_stem_is_plain(full.last());
    assert forall|i: int| 0 <= i < parts.len() implies is_plain(#[trigger] parts[i]) by {
        if i < parts.len() - 1 {
            assert(parts[i] == full[base.len() + i]);
            lemma_components_are_plain(path, base.len() + i);
        }
    }
    lemma_dotted_path_is_dot_joined(parts);
}

/// The file name of `path`: its last component, where that names a file or
/// directory. A path that ends in the root, `.` or `..` has none, and neither
/// has the empty path.
pub open spec fn file_name(path: Seq<char>) -> Option<Seq<char>> {
    let parts = components(path);
    if parts.len() > 0 && is_file_name(parts.last()) {
        Some(parts.last())
    } else {
        None
    }
}

/// The file name of `path`.
pub fn get_file_name(path: &str) -> (name: Option<String>)
    ensures
        match name {
            Some(text) => file_name(path@) == Some(text@),
            None => file_name(path@) is None,
        },
{
    let parts = path_components(path);
    if parts.len() == 0 {
        return None;
    }
    let last = &parts[parts.len() - 1];
    if is_root(last) || is_dot(last) || is_dot_dot(last) {
        None
    } else {
        Some(string_of(last))
    }
}

/// Whether `parts` can be the components of a path: plain names other than
/// `.`, but for the first, which may be the root or `.`.
pub open spec fn is_component_list(parts: Seq<Seq<char>>) -> bool {
    forall|k: int|
        0 <= k < parts.len() ==> (is_plain(#[trigger] parts[k]) && parts[k] != dot_text()) || (k
            == 0 && (parts[k] == root_text() || parts[k] == dot_text()))
}

/// The components of a path are a component list.
pub proof fn lemma_components_are_a_list(path: Seq<char>)
    ensures
        is_component_list(components(path)),
{
    let parts = components(path);
    assert forall|k: int| 0 <= k < parts.len() implies (is_plain(#[trigger] parts[k]) && parts[k]
        != dot_text()) || (k == 0 && (parts[k] == root_text() || parts[k] == dot_text())) by {
        lemma_components_are_plain(path, k);
        let head = leading(path);
        if k >= head.len() {
            lemma_named_members(pieces(path), k - head.len());
        }
    }
}

/// The text spelled by a component list is not empty, and ends in a
/// separator only where the list is the root alone.
proof fn lemma_joined_end(parts: Seq<Seq<char>>)
    requires
        is_component_list(parts),
        parts.len() > 0,
    ensures
        joined(parts).len() > 0,
        joined(parts).last() == '/' <==> parts == seq![root_text()],
{
    let last = parts.last();
    assert(last == parts[parts.len() - 1]);
    if parts.len() == 1 {
        assert(joined(parts.drop_last()) == Seq::<char>::empty());
        assert(joined(parts) =~= last);
        assert(parts =~= seq![last]);
        if last == root_text() {
        } else if last == dot_text() {
        } else {
            assert(last[last.len() - 1] != '/');
            assert(seq![root_text()][0] == root_text());
        }
    } else {
        assert(is_plain(last));
        assert(last[last.len() - 1] != '/');
        assert(seq![root_text()].len() == 1);
    }
}

/// A path spelled from a component list has exactly these components.
pub proof fn lemma_components_of_joined(parts: Seq<Seq<char>>)
    requires
        is_component_list(parts),
    ensures
        components(joined(parts)) == parts,
    decreases parts.len(),
{
    let text = joined(parts);
    if parts.len() == 0 {
        assert(named(pieces(text)) =~= Seq::<Seq<char>>::empty()) by {
            reveal_with_fuel(named, 2);
        }
        assert(components(text) =~= parts);
    } else {
        let init = parts.drop_last();
        let last = parts.last();
        let before = joined(init);
        assert(last == parts[parts.len() - 1]);
        assert forall|k: int| 0 <= k < init.len() implies (is_plain(#[trigger] init[k]) && init[k]
            != dot_text()) || (k == 0 && (init[k] == root_text() || init[k] == dot_text())) by {
            assert(init[k] == parts[k]);
        }
        lemma_components_of_joined(init);
        if init.len() == 0 {
            assert(text =~= last);
            if last == root_text() {
                assert(text == Seq::<char>::empty().push('/') + Seq::<char>::empty());
                lemma_split_of_one_more(Seq::empty(), Seq::empty(), '/');
                assert(named(pieces(text)) =~= Seq::<Seq<char>>::empty()) by {
                    reveal_with_fuel(named, 3);
                }
            } else {
                assert(is_plain(last) || last == dot_text());
                lemma_split_of_one_piece(last, '/');
                assert(named(seq![last]) =~= if is_named(last) {
                    seq![last]
                } else {
                    Seq::<Seq<char>>::empty()
                }) by {
                    reveal_with_fuel(named, 2);
                    assert(seq![last].drop_last() =~= Seq::<Seq<char>>::empty());
                }
            }
            assert(components(text) =~= parts);
        } else {
            lemma_joined_end(init);
            assert(is_plain(last) && last != dot_text());
            let start = if before.last() == '/' {
                before.drop_last()
            } else {
                before
            };
            assert(text =~= start.push('/') + last);
            lemma_split_of_one_more(start, last, '/');
            lemma_split_nonempty(start, '/');
            lemma_split_nonempty(before, '/');
            if before.last() == '/' {
                assert(init == seq![root_text()]);
                assert(init.last() == root_text());
                assert(init.drop_last() =~= Seq::<Seq<char>>::empty());
                assert(joined(init.drop_last()) =~= Seq::<char>::empty());
                assert(before =~= root_text());
                assert(start =~= Seq::<char>::empty());
                assert(before == Seq::<char>::empty().push('/') + Seq::<char>::empty());
                lemma_split_of_one_more(Seq::empty(), Seq::empty(), '/');
                assert(named(pieces(before)) =~= Seq::<Seq<char>>::empty()) by {
                    reveal_with_fuel(named, 3);
                }
                assert(named(pieces(text)) =~= seq![last]) by {
                    reveal_with_fuel(named, 3);
                }
            } else {
                assert(pieces(text).drop_last() =~= pieces(before));
                assert(pieces(text)[0] == pieces(before)[0]);
            }
            assert(text[0] == before[0]);
            assert(components(text) =~= components(before).push(last));
            assert(parts =~= init.push(last));
        }
    }
}

/// The common parent of a lone path, read as a path, has the components of
/// the path without the last.
pub proof fn lemma_lone_parent_components(path: Seq<char>)
    ensures
        common_parent(seq![path]) matches Some(parent) && components(parent) == parent_of(
            components(path),
        ),
{
    lemma_components_are_a_list(path);
    let parts = components(path);
    let kept = parent_of(parts);
    assert forall|k: int| 0 <= k < kept.len() implies (is_plain(#[trigger] kept[k]) && kept[k]
        != dot_text()) || (k == 0 && (kept[k] == root_text() || kept[k] == dot_text())) by {
        assert(kept[k] == parts[k]);
    }
    lemma_components_of_joined(kept);
}

/// The common parent of several paths, read as a path, has the components
/// that all of them begin with.
pub proof fn lemma_common_parent_components(paths: Seq<Seq<char>>)
    requires
        paths.len() >= 2,
    ensures
        match common_parent(paths) {
            Some(parent) => components(parent) == shared_by_all(all_components(paths)),
            None => shared_by_all(all_components(paths)).len() == 0,
        },
{
    let batch = all_components(paths);
    let shared = shared_by_all(batch);
    lemma_shared_by_all_is_prefix(batch, 0);
    lemma_components_are_a_list(paths[0]);
    let parts = components(paths[0]);
    assert(batch[0] == parts);
    assert forall|k: int| 0 <= k < shared.len() implies (is_plain(#[trigger] shared[k])
        && shared[k] != dot_text()) || (k == 0 && (shared[k] == root_text() || shared[k]
        == dot_text())) by {
        assert(shared[k] == parts.subrange(0, shared.len() as int)[k]);
        assert(shared[k] == parts[k]);
    }
    lemma_components_of_joined(shared);
}

/// Every path of a batch lies below the common parent of the batch: read as
/// a path, the parent has components with which the path begins.
pub proof fn lemma_common_parent_is_above_all(paths: Seq<Seq<char>>, i: int)
    requires
        0 <= i < paths.len(),
        common_parent(paths) is Some,
    ensures
        components(common_parent(paths)->0).is_prefix_of(components(paths[i])),
{
    if paths.len() == 1 {
        assert(paths =~= seq![paths[0]]);
        lemma_lone_parent_components(paths[0]);
        let parts = components(paths[0]);
        assert(parent_of(parts) =~= parts.subrange(0, parent_of(parts).len() as int));
    } else {
        lemma_common_parent_components(paths);
        lemma_shared_by_all_is_prefix(all_components(paths), i);
    }
}

} // verus!
