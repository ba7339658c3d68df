//! The digest of the files that a release is deployed from.
use crate::crypto::{digest_hex, sha256_hex};
use crate::error::{first_refusal, refusal, Error};
use crate::framing::{
    frame_le, le32, le64, push_all, push_bytes_le, push_le32, push_le64, utf8,
};
use crate::ordering::{lemma_text_order, order_texts, places, text_order};
use crate::paths::{is_normal_path, normal_path};
use crate::text::{same, texts};
use vstd::prelude::*;

verus! {

/// What stands at a path.
#[derive(Debug, PartialEq, Eq)]
pub enum NodeContent {
    File(Vec<u8>),
    Directory(Vec<Node>),
    Symlink,
    Other,
}

/// One entry of a file tree.
#[derive(Debug, PartialEq, Eq)]
pub struct Node {
    /// The bytes of its name.
    pub name: Vec<u8>,
    /// Its path as it is shown in messages.
    pub label: String,
    /// Its permission bits.
    pub mode: u32,
    pub content: NodeContent,
}

/// One declared input and what stands at its path.
#[derive(Debug, PartialEq, Eq)]
pub struct DeployInput {
    pub path: String,
    pub node: Node,
}

/// The name of an entry as a text with one character for each byte.
pub open spec fn name_key(name: Seq<u8>) -> Seq<char> {
    name.map_values(|byte: u8| byte as char)
}

/// The names of entries.
pub open spec fn name_keys(children: Seq<Node>) -> Seq<Seq<char>> {
    children.map_values(|node: Node| name_key(node.name@))
}

/// The bytes of a path below another.
pub open spec fn child_path(path: Seq<u8>, name: Seq<u8>) -> Seq<u8> {
    if path.len() > 0 && path.last() == 47u8 {
        path + name
    } else {
        path.push(47u8) + name
    }
}

/// The permission bits of an entry as they are hashed.
pub open spec fn mode_bytes(mode: u32) -> Seq<u8> {
    le32((mode % 4096) as nat)
}

/// The first entries of a directory, in the order of their names, as they are
/// hashed.
pub open spec fn entries_bytes(path: Seq<u8>, children: Seq<Node>, count: nat) -> Seq<u8>
    decreases children, count,
{
    if count == 0 {
        Seq::<u8>::empty()
    } else {
        let place = text_order(name_keys(children))[count - 1];
        let before = entries_bytes(path, children, (count - 1) as nat);
        if 0 <= place < children.len() {
            let node = children[place];
            let below = child_path(path, node.name@);
            before + frame_le(below) + mode_bytes(node.mode) + (match node.content {
                NodeContent::File(content) => frame_le(utf8("file"@)) + frame_le(content@),
                NodeContent::Directory(nodes) => frame_le(utf8("dir"@)) + (le64(nodes@.len())
                    + entries_bytes(below, nodes@, nodes@.len())),
                _ => Seq::<u8>::empty(),
            })
        } else {
            before
        }
    }
}

/// Why the first entries of a directory, in the order of their names, are
/// refused: for the first that is neither file nor directory.
pub open spec fn entries_refusal(children: Seq<Node>, count: nat) -> Option<Seq<char>>
    decreases children, count,
{
    if count == 0 {
        None
    } else {
        let place = text_order(name_keys(children))[count - 1];
        let before = entries_refusal(children, (count - 1) as nat);
        if 0 <= place < children.len() {
            let node = children[place];
            first_refusal(
                before,
                match node.content {
                    NodeContent::File(_) => None,
                    NodeContent::Directory(nodes) => entries_refusal(nodes@, nodes@.len()),
                    NodeContent::Symlink => Some(
                        "artifact workdir cannot contain symlink "@ + node.label@,
                    ),
                    NodeContent::Other => Some(
                        "artifact workdir contains unsupported entry "@ + node.label@,
                    ),
                },
            )
        } else {
            before
        }
    }
}

/// A directory as it is hashed.
pub open spec fn directory_bytes(path: Seq<u8>, children: Seq<Node>) -> Seq<u8> {
    le64(children.len()) + entries_bytes(path, children, children.len())
}

/// Why a directory is refused.
pub open spec fn directory_refusal(children: Seq<Node>) -> Option<Seq<char>> {
    entries_refusal(children, children.len())
}

proof fn lemma_entries_stop(children: Seq<Node>, at: nat)
    requires
        at <= children.len(),
        entries_refusal(children, at) is Some,
    ensures
        directory_refusal(children) == entries_refusal(children, at),
    decreases children.len() - at,
{
    if at < children.len() {
        lemma_text_order(name_keys(children));
        lemma_entries_stop(children, at + 1);
    }
}

fn key_of(name: &Vec<u8>) -> (key: String)
    ensures
        key@ == name_key(name@),
{
    let mut key = String::new();
    let mut i: usize = 0;
    assert(key@ =~= name_key(name@.take(0)));
    while i < name.len()
        invariant
            i <= name.len(),
            key@ == name_key(name@.take(i as int)),
        decreases name.len() - i,
    {
        key.push(name[i] as char);
        i = i + 1;
        assert(key@ =~= name_key(name@.take(i as int)));
    }
    assert(name@.take(i as int) =~= name@);
    key
}

fn keys_of(children: &Vec<Node>) -> (keys: Vec<String>)
    ensures
        texts(keys@) == name_keys(children@),
{
    let mut keys: Vec<String> = Vec::new();
    let mut i: usize = 0;
    while i < children.len()
        invariant
            i <= children.len(),
            keys@.len() == i,
            forall|k: int| 0 <= k < i ==> (#[trigger] keys@[k])@ == name_key(children@[k].name@),
        decreases children.len() - i,
    {
        keys.push(key_of(&children[i].name));
        i = i + 1;
    }
    assert(texts(keys@) =~= name_keys(children@));
    keys
}

fn path_below(path: &Vec<u8>, name: &Vec<u8>) -> (below: Vec<u8>)
    ensures
        below@ == child_path(path@, name@),
{
    let mut below: Vec<u8> = Vec::new();
    push_all(&mut below, path.as_slice());
    assert(below@ =~= path@);
    if path.len() == 0 || path[path.len() - 1] != 47u8 {
        below.push(47u8);
    }
    push_all(&mut below, name.as_slice());
    assert(below@ =~= child_path(path@, name@));
    below
}

fn push_mode(output: &mut Vec<u8>, mode: u32)
    ensures
        final(output)@ == old(output)@ + mode_bytes(mode),
{
    push_le32(output, mode % 4096);
}

fn push_word(output: &mut Vec<u8>, word: &str)
    ensures
        final(output)@ == old(output)@ + frame_le(utf8(word@)),
{
    push_bytes_le(output, word.as_bytes());
}

/// Append a directory as it is hashed.
fn push_directory(output: &mut Vec<u8>, path: &Vec<u8>, children: &Vec<Node>) -> (result: Result<
    (),
    Error,
>)
    ensures
        refusal(result) == directory_refusal(children@),
        result is Ok ==> final(output)@ == old(output)@ + directory_bytes(path@, children@),
    decreases children@,
{
    let keys = keys_of(children);
    let order = order_texts(&keys);
    assert(keys@.len() == children@.len()) by {
        assert(texts(keys@).len() == name_keys(children@).len());
    }
    let ghost start = output@ + le64(children@.len());
    push_le64(output, children.len() as u64);
    let mut i: usize = 0;
    assert(output@ =~= start + entries_bytes(path@, children@, 0));
    while i < order.len()
        invariant
            i <= order.len(),
            order@.len() == children@.len(),
            places(order@) == text_order(name_keys(children@)),
            forall|k: int| 0 <= k < order@.len() ==> #[trigger] order@[k] < children@.len(),
            entries_refusal(children@, i as nat) is None,
            output@ == start + entries_bytes(path@, children@, i as nat),
        decreases order.len() - i,
    {
        let place = order[i];
        let node = &children[place];
        assert(places(order@)[i as int] == place as int);
        assert(*node == children@[place as int]);
        let ghost before = entries_bytes(path@, children@, i as nat);
        let below = path_below(path, &node.name);
        push_bytes_le(output, below.as_slice());
        push_mode(output, node.mode);
        assert(output@ =~= start + (before + frame_le(below@) + mode_bytes(node.mode)));
        match &node.content {
            NodeContent::File(content) => {
                push_word(output, "file");
                push_bytes_le(output, content.as_slice());
            },
            NodeContent::Directory(nodes) => {
                push_word(output, "dir");
                assert(decreases_to!(children@ => nodes@)) by {
                    assert(decreases_to!(children@ => children@[place as int]));
                    assert(decreases_to!(children@[place as int] => children@[place as int].content));
                    assert(decreases_to!(node.content => *nodes));
                    assert(decreases_to!(*nodes => nodes@));
                }
                match push_directory(output, &below, nodes) {
                    Err(error) => {
                        proof {
                            lemma_entries_stop(children@, (i + 1) as nat);
                        }
                        return Err(error);
                    },
                    Ok(_) => {},
                }
            },
            NodeContent::Symlink => {
                proof {
                    lemma_entries_stop(children@, (i + 1) as nat);
                }
                let mut message = "artifact workdir cannot contain symlink ".to_owned();
                message.append(node.label.as_str());
                return Err(Error::new(message));
            },
            NodeContent::Other => {
                proof {
                    lemma_entries_stop(children@, (i + 1) as nat);
                }
                let mut message = "artifact workdir contains unsupported entry ".to_owned();
                message.append(node.label.as_str());
                return Err(Error::new(message));
            },
        }
        i = i + 1;
        assert(output@ =~= start + entries_bytes(path@, children@, i as nat));
    }
    Ok(())
}

/// The paths of declared inputs.
pub open spec fn input_paths(inputs: Seq<DeployInput>) -> Seq<Seq<char>> {
    inputs.map_values(|input: DeployInput| input.path@)
}

/// Two declared inputs have the same path.
pub open spec fn repeated_input(paths: Seq<Seq<char>>) -> bool {
    exists|i: int, j: int| 0 <= i < j < paths.len() && #[trigger] paths[i] == #[trigger] paths[j]
}

/// A declared input as it is hashed.
pub open spec fn input_bytes(input: DeployInput) -> Seq<u8> {
    let path = utf8(input.path@);
    mode_bytes(input.node.mode) + (match input.node.content {
        NodeContent::File(content) => frame_le(path) + frame_le(utf8("file"@)) + frame_le(content@),
        NodeContent::Directory(nodes) => frame_le(path) + frame_le(utf8("dir"@)) + directory_bytes(
            path,
            nodes@,
        ),
        _ => Seq::<u8>::empty(),
    })
}

/// Why a declared path is refused.
pub open spec fn input_path_refusal(path: Seq<char>) -> Option<Seq<char>> {
    if path.len() == 0 {
        Some("deploy inputs must not contain empty paths"@)
    } else if !normal_path(path) {
        Some("deploy input must be a relative path without '..': "@ + path)
    } else {
        None
    }
}

/// Check a declared path.
pub fn validate_input_path(path: &str) -> (result: Result<(), Error>)
    ensures
        refusal(result) == input_path_refusal(path@),
{
    if path.unicode_len() == 0 {
        return Err(Error::fixed("deploy inputs must not contain empty paths"));
    }
    if !is_normal_path(path) {
        let mut message = "deploy input must be a relative path without '..': ".to_owned();
        message.append(path);
        return Err(Error::new(message));
    }
    Ok(())
}

/// Why a declared input is refused.
pub open spec fn input_refusal(input: DeployInput) -> Option<Seq<char>> {
    first_refusal(
        input_path_refusal(input.path@),
        match input.node.content {
            NodeContent::File(_) => None,
            NodeContent::Directory(nodes) => directory_refusal(nodes@),
            NodeContent::Symlink => Some(
                "deploy input cannot be a symlink: "@ + input.node.label@,
            ),
            NodeContent::Other => Some(
                "deploy input is not a file or directory: "@ + input.node.label@,
            ),
        },
    )
}

/// The first declared inputs, in the order of their paths, as they are hashed.
pub open spec fn inputs_bytes(inputs: Seq<DeployInput>, count: nat) -> Seq<u8>
    decreases count,
{
    if count == 0 {
        Seq::<u8>::empty()
    } else {
        inputs_bytes(inputs, (count - 1) as nat) + input_bytes(
            inputs[text_order(input_paths(inputs))[count - 1]],
        )
    }
}

/// Why the first declared inputs, in the order of their paths, are refused.
pub open spec fn inputs_refusal(inputs: Seq<DeployInput>, count: nat) -> Option<Seq<char>>
    decreases count,
{
    if count == 0 {
        None
    } else {
        first_refusal(
            inputs_refusal(inputs, (count - 1) as nat),
            input_refusal(inputs[text_order(input_paths(inputs))[count - 1]]),
        )
    }
}

/// The bytes of which the digest of declared inputs is made.
pub open spec fn artifact_bytes(inputs: Seq<DeployInput>) -> Seq<u8> {
    le64(inputs.len()) + inputs_bytes(inputs, inputs.len())
}

/// Why declared inputs have no digest.
pub open spec fn artifact_refusal(inputs: Seq<DeployInput>) -> Option<Seq<char>> {
    if repeated_input(input_paths(inputs)) {
        Some("deploy inputs must not contain duplicates"@)
    } else {
        inputs_refusal(inputs, inputs.len())
    }
}

proof fn lemma_inputs_stop(inputs: Seq<DeployInput>, at: nat)
    requires
        at <= inputs.len(),
        inputs_refusal(inputs, at) is Some,
    ensures
        inputs_refusal(inputs, inputs.len()) == inputs_refusal(inputs, at),
    decreases inputs.len() - at,
{
    if at < inputs.len() {
        lemma_inputs_stop(inputs, at + 1);
    }
}

fn paths_of(inputs: &Vec<DeployInput>) -> (paths: Vec<String>)
    ensures
        texts(paths@) == input_paths(inputs@),
{
    let mut paths: Vec<String> = Vec::new();
    let mut i: usize = 0;
    while i < inputs.len()
        invariant
            i <= inputs.len(),
            paths@.len() == i,
            forall|k: int| 0 <= k < i ==> (#[trigger] paths@[k])@ == inputs@[k].path@,
        decreases inputs.len() - i,
    {
        paths.push(inputs[i].path.clone());
        i = i + 1;
    }
    assert(texts(paths@) =~= input_paths(inputs@));
    paths
}

fn has_repeats(paths: &Vec<String>) -> (answer: bool)
    ensures
        answer == repeated_input(texts(paths@)),
{
    let ghost models = texts(paths@);
    let mut i: usize = 0;
    while i < paths.len()
        invariant
            i <= paths.len(),
            models == texts(paths@),
            forall|a: int, b: int| 0 <= a < b < i ==> #[trigger] models[a] != #[trigger] models[b],
        decreases paths.len() - i,
    {
        let mut j: usize = 0;
        while j < i
            invariant
                j <= i < paths.len(),
                models == texts(paths@),
                forall|a: int| 0 <= a < j ==> #[trigger] models[a] != models[i as int],
            decreases i - j,
        {
            assert(models[j as int] == paths@[j as int]@);
            assert(models[i as int] == paths@[i as int]@);
            if same(&paths[j], &paths[i]) {
                return true;
            }
            j = j + 1;
        }
        i = i + 1;
    }
    false
}

fn push_input(output: &mut Vec<u8>, input: &DeployInput) -> (result: Result<(), Error>)
    ensures
        refusal(result) == input_refusal(*input),
        result is Ok ==> final(output)@ == old(output)@ + input_bytes(*input),
{
    match validate_input_path(input.path.as_str()) {
        Err(error) => return Err(error),
        Ok(_) => {},
    }
    push_mode(output, input.node.mode);
    match &input.node.content {
        NodeContent::File(content) => {
            push_word(output, input.path.as_str());
            push_word(output, "file");
            push_bytes_le(output, content.as_slice());
            assert(output@ =~= old(output)@ + input_bytes(*input));
            Ok(())
        },
        NodeContent::Directory(nodes) => {
            push_word(output, input.path.as_str());
            push_word(output, "dir");
            let mut path: Vec<u8> = Vec::new();
            push_all(&mut path, input.path.as_str().as_bytes());
            assert(path@ =~= utf8(input.path@));
            match push_directory(output, &path, nodes) {
                Err(error) => Err(error),
                Ok(_) => {
                    assert(output@ =~= old(output)@ + input_bytes(*input));
                    Ok(())
                },
            }
        },
        NodeContent::Symlink => {
            let mut message = "deploy input cannot be a symlink: ".to_owned();
            message.append(input.node.label.as_str());
            Err(Error::new(message))
        },
        NodeContent::Other => {
            let mut message = "deploy input is not a file or directory: ".to_owned();
            message.append(input.node.label.as_str());
            Err(Error::new(message))
        },
    }
}

/// The digest of declared inputs: their paths, permissions and contents.
pub fn artifact_digest(inputs: &Vec<DeployInput>) -> (result: Result<String, Error>)
    ensures
        refusal(result) == artifact_refusal(inputs@),
        result matches Ok(digest) ==> digest@ == sha256_hex(artifact_bytes(inputs@)),
{
    let paths = paths_of(inputs);
    assert(paths@.len() == inputs@.len()) by {
        assert(texts(paths@).len() == input_paths(inputs@).len());
    }
    if has_repeats(&paths) {
        return Err(Error::fixed("deploy inputs must not contain duplicates"));
    }
    let order = order_texts(&paths);
    let mut output: Vec<u8> = Vec::new();
    push_le64(&mut output, inputs.len() as u64);
    let mut i: usize = 0;
    assert(output@ =~= le64(inputs@.len()) + inputs_bytes(inputs@, 0));
    while i < order.len()
        invariant
            i <= order.len(),
            order@.len() == inputs@.len(),
            places(order@) == text_order(input_paths(inputs@)),
            forall|k: int| 0 <= k < order@.len() ==> #[trigger] order@[k] < inputs@.len(),
            !repeated_input(input_paths(inputs@)),
            inputs_refusal(inputs@, i as nat) is None,
            output@ == le64(inputs@.len()) + inputs_bytes(inputs@, i as nat),
        decreases order.len() - i,
    {
        let place = order[i];
        assert(places(order@)[i as int] == place as int);
        match push_input(&mut output, &inputs[place]) {
            Err(error) => {
                proof {
                    lemma_inputs_stop(inputs@, (i + 1) as nat);
                }
                return Err(error);
            },
            Ok(_) => {},
        }
        i = i + 1;
        assert(output@ =~= le64(inputs@.len()) + inputs_bytes(inputs@, i as nat));
    }
    Ok(digest_hex(output.as_slice()))
}

proof fn lemma_inputs_each(inputs: Seq<DeployInput>, count: nat)
    requires
        count <= inputs.len(),
    ensures
        inputs_refusal(inputs, count) is None <==> forall|k: int|
            0 <= k < count ==> input_refusal(
                inputs[#[trigger] text_order(input_paths(inputs))[k]],
            ) is None,
    decreases count,
{
    if count > 0 {
        lemma_inputs_each(inputs, (count - 1) as nat);
    }
}

/// Declared inputs have a digest if and only if no path is declared twice, each
/// path stays below the directory, and each is a file or a directory without
/// links and other things in it.
pub proof fn inputs_that_have_a_digest(
    inputs: &Vec<DeployInput>,
    result: Result<String, Error>,
)
    requires
        call_ensures(artifact_digest, (inputs,), result),
    ensures
        result is Ok <==> {
            &&& forall|i: int, j: int|
                0 <= i < j < inputs@.len() ==> (#[trigger] inputs@[i]).path@ != (
                #[trigger] inputs@[j]).path@
            &&& forall|i: int|
                0 <= i < inputs@.len() ==> {
                    let input = #[trigger] inputs@[i];
                    &&& input.path@.len() > 0
                    &&& normal_path(input.path@)
                    &&& input.node.content is File || (input.node.content matches
                        NodeContent::Directory(nodes) && directory_refusal(nodes@) is None)
                }
        },
{
    let list = inputs@;
    let paths = input_paths(list);
    let order = text_order(paths);
    crate::ordering::lemma_text_order(paths);
    lemma_inputs_each(list, list.len());
    assert(paths.len() == list.len());
    assert forall|i: int| 0 <= i < list.len() implies paths[i] == (#[trigger] list[i]).path@ by {};
    assert forall|i: int| 0 <= i < list.len() implies (input_refusal(#[trigger] list[i]) is None
        <==> {
        let input = list[i];
        &&& input.path@.len() > 0
        &&& normal_path(input.path@)
        &&& input.node.content is File || (input.node.content matches NodeContent::Directory(nodes)
            && directory_refusal(nodes@) is None)
    }) by {};
    if repeated_input(paths) {
        let (i, j) = choose|i: int, j: int|
            0 <= i < j < paths.len() && #[trigger] paths[i] == #[trigger] paths[j];
        assert(list[i].path@ == list[j].path@);
    } else {
        assert forall|i: int, j: int| 0 <= i < j < list.len() implies (
        #[trigger] list[i]).path@ != (#[trigger] list[j]).path@ by {
            assert(paths[i] != paths[j]);
        }
    }
    if result is Ok {
        assert forall|i: int| 0 <= i < list.len() implies input_refusal(
            #[trigger] list[i],
        ) is None by {
            assert(order.contains(i));
            let k = choose|k: int| 0 <= k < order.len() && order[k] == i;
            assert(input_refusal(list[order[k]]) is None);
        }
    }
}

proof fn lemma_inputs_arranged(
    left: Seq<DeployInput>,
    right: Seq<DeployInput>,
    count: nat,
)
    requires
        left.len() == right.len(),
        count <= left.len(),
        crate::ordering::arranged(left, text_order(input_paths(left)))
            == crate::ordering::arranged(right, text_order(input_paths(right))),
    ensures
        inputs_bytes(left, count) == inputs_bytes(right, count),
    decreases count,
{
    if count > 0 {
        lemma_inputs_arranged(left, right, (count - 1) as nat);
        crate::ordering::lemma_text_order(input_paths(left));
        crate::ordering::lemma_text_order(input_paths(right));
        let a = crate::ordering::arranged(left, text_order(input_paths(left)));
        let b = crate::ordering::arranged(right, text_order(input_paths(right)));
        assert(a[count - 1] == left[text_order(input_paths(left))[count - 1]]);
        assert(b[count - 1] == right[text_order(input_paths(right))[count - 1]]);
    }
}

/// The order in which inputs are declared does not show in their digest.
pub proof fn digests_forget_the_order(
    left: &Vec<DeployInput>,
    right: &Vec<DeployInput>,
    first: Result<String, Error>,
    second: Result<String, Error>,
)
    requires
        call_ensures(artifact_digest, (left,), first),
        call_ensures(artifact_digest, (right,), second),
        left@.to_multiset() == right@.to_multiset(),
        first is Ok && second is Ok,
    ensures
        first->Ok_0@ == second->Ok_0@,
{
    let key = |input: DeployInput| input.path@;
    assert(left@.map_values(key) =~= input_paths(left@));
    assert(right@.map_values(key) =~= input_paths(right@));
    let paths = input_paths(left@);
    assert(paths.no_duplicates()) by {
        assert forall|i: int, j: int|
            0 <= i < paths.len() && 0 <= j < paths.len() && i != j implies paths[i]
            != paths[j] by {
            if i < j {
                assert(!(paths[i] == paths[j]));
            } else {
                assert(!(paths[j] == paths[i]));
            }
        }
    }
    crate::ordering::arranging_forgets_the_order(left@, right@, key);
    left@.to_multiset_ensures();
    right@.to_multiset_ensures();
    assert(left@.len() == right@.len());
    lemma_inputs_arranged(left@, right@, left@.len());
}

proof fn lemma_one_changed(
    left: Seq<DeployInput>,
    right: Seq<DeployInput>,
    k: int,
    count: nat,
) -> (parts: (Seq<u8>, Seq<u8>))
    requires
        left.len() == right.len(),
        0 <= k < left.len(),
        left[k].path@ == right[k].path@,
        forall|i: int| 0 <= i < left.len() && i != k ==> left[i] == right[i],
        count <= left.len(),
    ensures
        ({
            let order = text_order(input_paths(left));
            let reached = exists|j: int| 0 <= j < count && #[trigger] order[j] == k;
            &&& !reached ==> inputs_bytes(left, count) == inputs_bytes(right, count)
            &&& reached ==> inputs_bytes(left, count) == parts.0 + input_bytes(left[k]) + parts.1
                && inputs_bytes(right, count) == parts.0 + input_bytes(right[k]) + parts.1
        }),
    decreases count,
{
    let order = text_order(input_paths(left));
    assert(input_paths(left) =~= input_paths(right)) by {
        assert forall|i: int| 0 <= i < left.len() implies input_paths(left)[i] == input_paths(
            right,
        )[i] by {
            if i != k {
                assert(left[i] == right[i]);
            }
        }
    }
    crate::ordering::lemma_text_order(input_paths(left));
    if count == 0 {
        (Seq::<u8>::empty(), Seq::<u8>::empty())
    } else {
        let before = lemma_one_changed(left, right, k, (count - 1) as nat);
        let place = order[count - 1];
        if place == k {
            assert forall|j: int| 0 <= j < count - 1 implies #[trigger] order[j] != k by {
                assert(order[j] == order[count - 1] ==> input_paths(left)[order[j]] == input_paths(
                    left,
                )[order[count - 1]]);
            }
            let pre = inputs_bytes(left, (count - 1) as nat);
            let none = Seq::<u8>::empty();
            assert(order[count - 1] == k);
            assert(pre + input_bytes(left[k]) + none =~= pre + input_bytes(left[k]));
            assert(pre + input_bytes(right[k]) + none =~= pre + input_bytes(right[k]));
            (pre, none)
        } else {
            let tail = input_bytes(left[place]);
            assert(left[place] == right[place]);
            if exists|j: int| 0 <= j < count - 1 && #[trigger] order[j] == k {
                assert(before.0 + input_bytes(left[k]) + before.1 + tail =~= before.0
                    + input_bytes(left[k]) + (before.1 + tail));
                assert(before.0 + input_bytes(right[k]) + before.1 + tail =~= before.0
                    + input_bytes(right[k]) + (before.1 + tail));
            }
            (before.0, before.1 + tail)
        }
    }
}

proof fn lemma_mode_told(a: u32, b: u32, x: Seq<u8>, y: Seq<u8>)
    requires
        mode_bytes(a) + x == mode_bytes(b) + y,
    ensures
        a % 4096 == b % 4096,
        x == y,
{
    let left = mode_bytes(a) + x;
    let right = mode_bytes(b) + y;
    assert(left[0] == mode_bytes(a)[0]);
    assert(left[1] == mode_bytes(a)[1]);
    assert(right[0] == mode_bytes(b)[0]);
    assert(right[1] == mode_bytes(b)[1]);
    assert(x =~= left.skip(4));
    assert(y =~= right.skip(4));
}

/// Every file shows in the digest: where two lists of inputs differ in one file
/// of the same path, and the bytes that are hashed are the same, so are its
/// permissions and its contents.
pub proof fn changed_files_show(left: Seq<DeployInput>, right: Seq<DeployInput>, k: int)
    requires
        left.len() == right.len(),
        0 <= k < left.len(),
        forall|i: int| 0 <= i < left.len() && i != k ==> left[i] == right[i],
        left[k].path@ == right[k].path@,
        left[k].node.content is File,
        right[k].node.content is File,
        crate::framing::frameable(utf8(left[k].path@)),
        crate::framing::frameable(left[k].node.content->File_0@),
        crate::framing::frameable(right[k].node.content->File_0@),
        artifact_bytes(left) == artifact_bytes(right),
    ensures
        left[k].node.mode % 4096 == right[k].node.mode % 4096,
        left[k].node.content->File_0@ == right[k].node.content->File_0@,
{
    let order = text_order(input_paths(left));
    crate::ordering::lemma_text_order(input_paths(left));
    assert(order.contains(k));
    let at = choose|at: int| 0 <= at < order.len() && order[at] == k;
    assert(order[at] == k);
    let (pre, post) = lemma_one_changed(left, right, k, left.len());
    let a = input_bytes(left[k]);
    let b = input_bytes(right[k]);
    crate::framing::lemma_tail_cancel(
        le64(left.len()),
        inputs_bytes(left, left.len()),
        inputs_bytes(right, right.len()),
    );
    lemma_regrouped(pre, a, post);
    lemma_regrouped(pre, b, post);
    crate::framing::lemma_tail_cancel(pre, a + post, b + post);
    lemma_file_told(
        left[k].node.mode,
        right[k].node.mode,
        frame_le(utf8(left[k].path@)),
        frame_le(utf8("file"@)),
        left[k].node.content->File_0@,
        right[k].node.content->File_0@,
        post,
    );
}

proof fn lemma_regrouped(p: Seq<u8>, x: Seq<u8>, y: Seq<u8>)
    ensures
        p + x + y == p + (x + y),
{
    assert(p + x + y =~= p + (x + y));
}

proof fn lemma_file_told(
    a: u32,
    b: u32,
    path: Seq<u8>,
    word: Seq<u8>,
    one: Seq<u8>,
    two: Seq<u8>,
    post: Seq<u8>,
)
    requires
        mode_bytes(a) + (path + word + frame_le(one)) + post == mode_bytes(b) + (path + word
            + frame_le(two)) + post,
        crate::framing::frameable(one),
        crate::framing::frameable(two),
    ensures
        a % 4096 == b % 4096,
        one == two,
{
    let first = frame_le(one);
    let second = frame_le(two);
    let head = path + word;
    let none = Seq::<u8>::empty();
    lemma_regrouped(mode_bytes(a), head + first, post);
    lemma_regrouped(mode_bytes(b), head + second, post);
    lemma_mode_told(a, b, head + first + post, head + second + post);
    lemma_regrouped(head, first, post);
    lemma_regrouped(head, second, post);
    crate::framing::lemma_tail_cancel(head, first + post, second + post);
    assert(none + first =~= first);
    assert(none + second =~= second);
    crate::framing::lemma_frame_le_cancel(none, one, two, post, post);
}

/// An input is named by a relative path without steps up that is not empty.
pub proof fn input_paths_are_relative(path: &str, result: Result<(), Error>)
    requires
        call_ensures(validate_input_path, (path,), result),
    ensures
        result is Ok <==> path@.len() > 0 && normal_path(path@),
{
}

/// A child stands below its directory: its path is that of the directory, one
/// slash and its name.
pub proof fn children_stand_below_their_directory(path: Seq<u8>, name: Seq<u8>)
    ensures
        path.len() == 0 || path.last() != 47 ==> child_path(path, name) == path + seq![47u8]
            + name,
        path.len() > 0 && path.last() == 47 ==> child_path(path, name) == path + name,
{
    assert(path.push(47u8) =~= path + seq![47u8]);
}

} // verus!
