//! Paths of the file system, and how they are shown.

use crate::ids::{copied, same_bytes};
use vstd::prelude::*;
use vstd::string::*;
use vstd::utf8::{
    decode_first_codepoint, decode_utf8, is_continuation_byte, length_of_first_scalar,
    pop_first_scalar, valid_first_scalar, valid_utf8,
};

verus! {

/// The text that `String::from_utf8_lossy` makes of `bytes`.
pub uninterp spec fn lossy_text(bytes: Seq<u8>) -> Seq<char>;

/// Calls `String::from_utf8_lossy`. Its result depends on the bytes alone, and
/// where these are UTF-8 it is the text that they encode. Which replacement
/// characters stand in for bytes that are not UTF-8 is left unsaid.
#[verifier::external_body]
fn from_utf8_lossy(bytes: &Vec<u8>) -> (text: String)
    ensures
        text@ == lossy_text(bytes@),
        valid_utf8(bytes@) ==> text@ == decode_utf8(bytes@),
{
    String::from_utf8_lossy(bytes).into_owned()
}

/// What a list of texts says.
pub open spec fn texts_view(texts: Seq<String>) -> Seq<Seq<char>> {
    texts.map_values(|text: String| text@)
}

/// Whether the three bytes from position `i` on stand for an unpaired surrogate.
/// Windows has such in its names; they have no form in UTF-8, but the bytes follow
/// its pattern.
pub open spec fn surrogate_at(bytes: Seq<u8>, i: int) -> bool {
    &&& 0 <= i < bytes.len() - 2
    &&& bytes[i] == 0xed
    &&& 0xa0 <= bytes[i + 1] <= 0xbf
    &&& is_continuation_byte(bytes[i + 2])
}

/// `bytes` with the replacement character, of which these are the three bytes, in
/// place of each surrogate.
pub open spec fn surrogates_replaced(bytes: Seq<u8>) -> Seq<u8> {
    Seq::new(
        bytes.len(),
        |i: int|
            if surrogate_at(bytes, i) {
                0xefu8
            } else if surrogate_at(bytes, i - 1) {
                0xbfu8
            } else if surrogate_at(bytes, i - 2) {
                0xbdu8
            } else {
                bytes[i]
            },
    )
}

/// The text of a component of a path. A surrogate in a name of Windows shows as
/// one replacement character.
pub open spec fn part_text(part: Seq<u8>, windows: bool) -> Seq<char> {
    if windows {
        lossy_text(surrogates_replaced(part))
    } else {
        lossy_text(part)
    }
}

/// The texts of the components of `path`.
pub open spec fn part_texts(path: Seq<Seq<u8>>, windows: bool) -> Seq<Seq<char>> {
    path.map_values(|part: Seq<u8>| part_text(part, windows))
}

/// Whether each component of `path` that is UTF-8 shows as the text that it
/// encodes.
pub open spec fn utf8_is_kept(path: Seq<Seq<u8>>, windows: bool) -> bool {
    forall|i: int|
        0 <= i < path.len() && valid_utf8(#[trigger] path[i]) ==> part_text(path[i], windows)
            == decode_utf8(path[i])
}

/// Whether every component of `path` is UTF-8.
pub open spec fn all_utf8(path: Seq<Seq<u8>>) -> bool {
    forall|i: int| 0 <= i < path.len() ==> valid_utf8(#[trigger] path[i])
}

/// The texts that the components of `path` encode.
pub open spec fn decoded(path: Seq<Seq<u8>>) -> Seq<Seq<char>> {
    path.map_values(|part: Seq<u8>| decode_utf8(part))
}

proof fn lemma_no_surrogate(bytes: Seq<u8>, i: int)
    requires
        valid_utf8(bytes),
    ensures
        !surrogate_at(bytes, i),
    decreases bytes.len(),
{
    if surrogate_at(bytes, i) {
        assert(valid_first_scalar(bytes));
        let length = length_of_first_scalar(bytes);
        if i == 0 {
            let (second, third) = (bytes[1], bytes[2]);
            let point: u32 = decode_first_codepoint(bytes);
            assert(point == ((0xedu8 & 0x0F) as u32) << 12 | ((second & 0x3f) as u32) << 6 | ((third
                & 0x3f) as u32));
            assert(0xD800 <= (((0xedu8 & 0x0F) as u32) << 12 | ((second & 0x3f) as u32) << 6 | ((
            third & 0x3f) as u32)) <= 0xDFFF) by (bit_vector)
                requires
                    0xa0 <= second <= 0xbf,
            ;
        } else if i >= length {
            let rest = pop_first_scalar(bytes);
            assert(rest[i - length] == bytes[i]);
            assert(rest[i - length + 1] == bytes[i + 1]);
            assert(rest[i - length + 2] == bytes[i + 2]);
            lemma_no_surrogate(rest, i - length);
        }
    }
}

/// Replaces the surrogates in a name of Windows.
fn replace_surrogates(bytes: &Vec<u8>) -> (replaced: Vec<u8>)
    ensures
        replaced@ == surrogates_replaced(bytes@),
        valid_utf8(bytes@) ==> replaced@ == bytes@,
{
    let mut replaced: Vec<u8> = Vec::new();
    let mut i: usize = 0;
    while i < bytes.len()
        invariant
            i <= bytes@.len(),
            replaced@ == surrogates_replaced(bytes@).take(i as int),
        decreases bytes@.len() - i,
    {
        let byte: u8 = if is_surrogate(bytes, i) {
            0xef
        } else if i >= 1 && is_surrogate(bytes, i - 1) {
            0xbf
        } else if i >= 2 && is_surrogate(bytes, i - 2) {
            0xbd
        } else {
            bytes[i]
        };
        replaced.push(byte);
        assert(replaced@ =~= surrogates_replaced(bytes@).take(i + 1));
        i = i + 1;
    }
    proof {
        assert(replaced@ =~= surrogates_replaced(bytes@));
        if valid_utf8(bytes@) {
            assert forall|k: int| 0 <= k < bytes@.len() implies replaced@[k] == bytes@[k] by {
                lemma_no_surrogate(bytes@, k);
                lemma_no_surrogate(bytes@, k - 1);
                lemma_no_surrogate(bytes@, k - 2);
            }
            assert(replaced@ =~= bytes@);
        }
    }
    replaced
}

/// Whether the three bytes from position `i` on stand for an unpaired surrogate.
fn is_surrogate(bytes: &Vec<u8>, i: usize) -> (found: bool)
    requires
        i < bytes@.len(),
    ensures
        found == surrogate_at(bytes@, i as int),
{
    bytes.len() - i > 2 && bytes[i] == 0xed && 0xa0 <= bytes[i + 1] && bytes[i + 1] <= 0xbf && 0x80
        <= bytes[i + 2] && bytes[i + 2] <= 0xbf
}

/// What stands between the components of a path.
pub open spec fn separator(windows: bool) -> Seq<char> {
    if windows {
        "\\"@
    } else {
        "/"@
    }
}

/// `texts` in a row, with `between` between each two.
pub open spec fn joined(texts: Seq<Seq<char>>, between: Seq<char>) -> Seq<char>
    decreases texts.len(),
{
    if texts.len() == 0 {
        Seq::empty()
    } else if texts.len() == 1 {
        texts[0]
    } else {
        joined(texts.drop_last(), between) + between + texts.last()
    }
}

/// How a relative path is shown.
pub open spec fn shown(path: Seq<Seq<u8>>, windows: bool) -> Seq<char> {
    joined(part_texts(path, windows), separator(windows))
}

/// How a path is shown, the first `anchor` components of which are the platform's
/// own part of it: nothing stands between these, nor behind them.
pub open spec fn shown_from(path: Seq<Seq<u8>>, anchor: int, windows: bool) -> Seq<char> {
    joined(part_texts(path.take(anchor), windows), ""@) + shown(path.skip(anchor), windows)
}

/// What stands between the components of a path.
fn separator_text(windows: bool) -> (text: &'static str)
    ensures
        text@ == separator(windows),
{
    if windows {
        "\\"
    } else {
        "/"
    }
}

/// `texts` in a row, with `between` between each two.
pub fn join_texts(texts: &Vec<String>, between: &str) -> (text: String)
    ensures
        text@ == joined(texts_view(texts@), between@),
{
    let ghost all = texts_view(texts@);
    let mut text = String::new();
    let mut i: usize = 0;
    while i < texts.len()
        invariant
            i <= texts@.len(),
            all == texts_view(texts@),
            text@ == joined(all.take(i as int), between@),
        decreases texts@.len() - i,
    {
        if i > 0 {
            text.append(between);
        }
        text.append(texts[i].as_str());
        proof {
            assert(all.take(i + 1).drop_last() =~= all.take(i as int));
            assert(all.take(i + 1).last() == all[i as int]);
            assert(text@ =~= joined(all.take(i + 1), between@));
        }
        i = i + 1;
    }
    assert(all.take(i as int) =~= all);
    text
}

/// A path as the list of its components, each as the bytes that the platform
/// stores for it; on Windows these are UTF-8, but for unpaired surrogates.
#[derive(Debug, PartialEq, Eq)]
pub struct Components {
    pub parts: Vec<Vec<u8>>,
}

impl View for Components {
    type V = Seq<Seq<u8>>;

    open spec fn view(&self) -> Seq<Seq<u8>> {
        self.parts@.map_values(|part: Vec<u8>| part@)
    }
}

impl Components {
    /// The path with these components.
    pub fn new(parts: Vec<Vec<u8>>) -> (path: Components)
        ensures
            path@ == parts@.map_values(|part: Vec<u8>| part@),
    {
        Components { parts }
    }

    /// Whether `base` is a leading part of this path, component by component.
    pub fn starts_with(&self, base: &Components) -> (starts: bool)
        ensures
            starts == base@.is_prefix_of(self@),
    {
        if base.parts.len() > self.parts.len() {
            return false;
        }
        let mut i: usize = 0;
        while i < base.parts.len()
            invariant
                i <= base@.len() <= self@.len(),
                base@.len() == base.parts@.len(),
                self@.len() == self.parts@.len(),
                forall|k: int| 0 <= k < i ==> base@[k] == self@[k],
            decreases base@.len() - i,
        {
            if !same_bytes(&base.parts[i], &self.parts[i]) {
                assert(base@[i as int] != self@[i as int]);
                return false;
            }
            assert(base@[i as int] == self@[i as int]);
            i = i + 1;
        }
        assert(base@ =~= self@.subrange(0, base@.len() as int));
        true
    }

    /// The path without its first `count` components.
    pub fn without_first(&self, count: usize) -> (rest: Components)
        requires
            count <= self@.len(),
        ensures
            rest@ == self@.skip(count as int),
    {
        let mut parts: Vec<Vec<u8>> = Vec::new();
        let mut i: usize = count;
        while i < self.parts.len()
            invariant
                count <= i <= self@.len(),
                self@.len() == self.parts@.len(),
                parts@.map_values(|part: Vec<u8>| part@) == self@.subrange(count as int, i as int),
            decreases self@.len() - i,
        {
            let ghost before = parts@;
            parts.push(copied(&self.parts[i]));
            proof {
                assert(parts@.map_values(|part: Vec<u8>| part@) =~= before.map_values(
                    |part: Vec<u8>| part@,
                ).push(self@[i as int]));
                assert(self@.subrange(count as int, i + 1) =~= self@.subrange(
                    count as int,
                    i as int,
                ).push(self@[i as int]));
            }
            i = i + 1;
        }
        assert(self@.subrange(count as int, i as int) =~= self@.skip(count as int));
        Components { parts }
    }

    /// The path without its last component. There is none where the path ends
    /// with the platform's own part of it, which is its first `anchor`
    /// components: the root directory, and on Windows the prefix before it. A
    /// relative path has no such part.
    pub fn parent(&self, anchor: usize) -> (parent: Option<Components>)
        ensures
            match parent {
                Some(p) => self@.len() > anchor && p@ == self@.drop_last(),
                None => self@.len() <= anchor,
            },
    {
        if self.parts.len() <= anchor {
            return None;
        }
        let mut parent = self.clone();
        let ghost whole = parent.parts@;
        parent.parts.pop();
        assert(parent@ =~= self@.drop_last()) by {
            assert(whole.map_values(|part: Vec<u8>| part@) == self@);
        }
        Some(parent)
    }

    /// Adds a component at the end.
    pub fn push(&mut self, part: Vec<u8>)
        ensures
            final(self)@ == old(self)@.push(part@),
    {
        self.parts.push(part);
        assert(self@ =~= old(self)@.push(part@));
    }

    /// The texts of the components, in which what is not UTF-8 is replaced.
    pub fn texts(&self, windows: bool) -> (texts: Vec<String>)
        ensures
            texts_view(texts@) == part_texts(self@, windows),
            utf8_is_kept(self@, windows),
    {
        let mut texts: Vec<String> = Vec::new();
        let mut i: usize = 0;
        while i < self.parts.len()
            invariant
                i <= self@.len(),
                self@.len() == self.parts@.len(),
                texts_view(texts@) == part_texts(self@, windows).take(i as int),
                utf8_is_kept(self@.take(i as int), windows),
            decreases self@.len() - i,
        {
            let ghost before = texts@;
            let text = if windows {
                from_utf8_lossy(&replace_surrogates(&self.parts[i]))
            } else {
                from_utf8_lossy(&self.parts[i])
            };
            texts.push(text);
            proof {
                let all = part_texts(self@, windows);
                assert(texts_view(texts@) =~= texts_view(before).push(all[i as int]));
                assert(all.take(i + 1) =~= all.take(i as int).push(all[i as int]));
                assert(self@.take(i + 1) =~= self@.take(i as int).push(self@[i as int]));
                assert forall|k: int|
                    0 <= k < i + 1 && valid_utf8(#[trigger] self@.take(i + 1)[k]) implies part_text(
                    self@.take(i + 1)[k],
                    windows,
                ) == decode_utf8(self@.take(i + 1)[k]) by {
                    if k < i {
                        assert(self@.take(i as int)[k] == self@[k]);
                    }
                }
            }
            i = i + 1;
        }
        proof {
            assert(part_texts(self@, windows).take(i as int) =~= part_texts(self@, windows));
            assert(self@.take(i as int) =~= self@);
        }
        texts
    }

    /// How this relative path is shown. What is UTF-8 shows as the text that it
    /// encodes.
    pub fn show(&self, windows: bool) -> (text: String)
        ensures
            text@ == shown(self@, windows),
            utf8_is_kept(self@, windows),
            all_utf8(self@) ==> text@ == joined(decoded(self@), separator(windows)),
    {
        let text = join_texts(&self.texts(windows), separator_text(windows));
        proof {
            if all_utf8(self@) {
                assert(part_texts(self@, windows) =~= decoded(self@));
            }
        }
        text
    }

    /// How this path is shown, the first `anchor` components of which are the
    /// platform's own part of it. What is UTF-8 shows as the text that it encodes.
    pub fn show_from(&self, anchor: usize, windows: bool) -> (text: String)
        requires
            anchor <= self@.len(),
        ensures
            text@ == shown_from(self@, anchor as int, windows),
            utf8_is_kept(self@, windows),
            all_utf8(self@) ==> text@ == joined(decoded(self@.take(anchor as int)), ""@) + joined(
                decoded(self@.skip(anchor as int)),
                separator(windows),
            ),
    {
        let ghost all = part_texts(self@, windows);
        let mut platform = self.texts(windows);
        let ghost texts = platform@;
        assert(texts_view(texts).len() == texts.len());
        let rest = platform.split_off(anchor);
        proof {
            let (first, last) = (self@.take(anchor as int), self@.skip(anchor as int));
            assert(texts_view(platform@) =~= part_texts(first, windows)) by {
                assert(texts_view(platform@) =~= texts_view(texts).take(anchor as int));
            }
            assert(texts_view(rest@) =~= part_texts(last, windows)) by {
                assert(texts_view(rest@) =~= texts_view(texts).skip(anchor as int));
            }
            if all_utf8(self@) {
                assert(part_texts(first, windows) =~= decoded(first));
                assert(part_texts(last, windows) =~= decoded(last));
            }
        }
        let mut text = join_texts(&platform, "");
        text.append(join_texts(&rest, separator_text(windows)).as_str());
        text
    }
}

impl Clone for Components {
    fn clone(&self) -> (copy: Components)
        ensures
            copy@ == self@,
    {
        let copy = self.without_first(0);
        assert(self@.skip(0) =~= self@);
        copy
    }
}

/// Joining goes piece by piece: `between` stands between any two pieces, and nowhere
/// else.
pub proof fn law_joined_pieces(a: Seq<Seq<char>>, b: Seq<Seq<char>>, between: Seq<char>)
    ensures
        joined(Seq::<Seq<char>>::empty(), between).len() == 0,
        forall|text: Seq<char>| #[trigger] joined(seq![text], between) == text,
        a.len() > 0 && b.len() > 0 ==> joined(a + b, between) == joined(a, between) + between
            + joined(b, between),
    decreases b.len(),
{
    if a.len() > 0 && b.len() > 0 {
        assert((a + b).drop_last() =~= a + b.drop_last());
        assert((a + b).last() == b.last());
        if b.len() == 1 {
            assert(a + b.drop_last() =~= a);
        } else {
            law_joined_pieces(a, b.drop_last(), between);
            assert(joined(a + b, between) =~= joined(a, between) + between + joined(b, between));
        }
    }
}

/// A path with one more component shows that behind a separator, a backslash on
/// Windows and a slash elsewhere, unless nothing or only the platform's own part
/// stands before it.
pub proof fn law_shown_component_by_component(
    path: Seq<Seq<u8>>,
    part: Seq<u8>,
    anchor: int,
    windows: bool,
)
    requires
        0 <= anchor <= path.len(),
    ensures
        ({
            let bar = if windows {
                seq!['\\']
            } else {
                seq!['/']
            };
            let text = part_text(part, windows);
            &&& shown(Seq::<Seq<u8>>::empty(), windows).len() == 0
            &&& path.len() == 0 ==> shown(path.push(part), windows) == text
            &&& path.len() > 0 ==> shown(path.push(part), windows) == shown(path, windows) + bar
                + text
            &&& shown_from(path, 0, windows) == shown(path, windows)
            &&& anchor == path.len() ==> {
                &&& shown_from(path.push(part), anchor, windows) == shown_from(
                    path,
                    anchor,
                    windows,
                ) + text
                &&& shown_from(path.push(part), anchor + 1, windows) == shown_from(
                    path,
                    anchor,
                    windows,
                ) + text
            }
            &&& anchor < path.len() ==> shown_from(path.push(part), anchor, windows) == shown_from(
                path,
                anchor,
                windows,
            ) + bar + text
        }),
{
    reveal_strlit("\\");
    reveal_strlit("/");
    reveal_strlit("");
    let text = part_text(part, windows);
    let bar = if windows {
        seq!['\\']
    } else {
        seq!['/']
    };
    assert(separator(windows) =~= bar);
    lemma_shown_push(path, part, windows);
    assert(path.take(0) =~= Seq::<Seq<u8>>::empty());
    assert(path.skip(0) =~= path);
    assert(part_texts(Seq::empty(), windows) =~= Seq::<Seq<char>>::empty());
    assert(shown_from(path, 0, windows) =~= shown(path, windows));
    let longer = path.push(part);
    let rest = path.skip(anchor);
    assert(longer.take(anchor) =~= path.take(anchor));
    assert(longer.skip(anchor) =~= rest.push(part));
    lemma_shown_push(rest, part, windows);
    let first = joined(part_texts(path.take(anchor), windows), ""@);
    if anchor == path.len() {
        assert(rest =~= Seq::<Seq<u8>>::empty());
        assert(shown_from(longer, anchor, windows) =~= shown_from(path, anchor, windows) + text);
        assert(longer.take(anchor + 1) =~= longer);
        assert(longer.skip(anchor + 1) =~= Seq::<Seq<u8>>::empty());
        assert(path.take(anchor) =~= path);
        let texts = part_texts(path, windows);
        assert(part_texts(longer, windows) =~= texts.push(text));
        assert(texts.push(text).drop_last() =~= texts);
        assert(joined(texts.push(text), ""@) =~= joined(texts, ""@) + text);
        assert(shown_from(longer, anchor + 1, windows) =~= shown_from(path, anchor, windows)
            + text);
    } else {
        assert(shown_from(longer, anchor, windows) =~= shown_from(path, anchor, windows) + bar
            + text);
    }
}

proof fn lemma_shown_push(path: Seq<Seq<u8>>, part: Seq<u8>, windows: bool)
    ensures
        path.len() == 0 ==> shown(path.push(part), windows) == part_text(part, windows),
        path.len() > 0 ==> shown(path.push(part), windows) == shown(path, windows) + separator(
            windows,
        ) + part_text(part, windows),
{
    let texts = part_texts(path, windows);
    assert(part_texts(path.push(part), windows) =~= texts.push(part_text(part, windows)));
    assert(texts.push(part_text(part, windows)).drop_last() =~= texts);
}

/// In a name of Windows the three bytes of each unpaired surrogate give way to those
/// of the replacement character, whatever stands around them, and no other byte is
/// touched. Elsewhere a name is decoded as it is.
pub proof fn law_surrogates_give_way(
    before: Seq<u8>,
    second: u8,
    third: u8,
    behind: Seq<u8>,
)
    requires
        0xa0 <= second <= 0xbf,
        0x80 <= third <= 0xbf,
    ensures
        surrogates_replaced(before + seq![0xedu8, second, third] + behind) == surrogates_replaced(
            before,
        ) + seq![0xefu8, 0xbfu8, 0xbdu8] + surrogates_replaced(behind),
        (forall|i: int|
            0 <= i < before.len() - 2 && #[trigger] before[i] == 0xed ==> !(0xa0 <= before[i + 1]
                <= 0xbf && 0x80 <= before[i + 2] <= 0xbf)) ==> surrogates_replaced(before)
            == before,
        part_text(before, true) == lossy_text(surrogates_replaced(before)),
        part_text(before, false) == lossy_text(before),
{
    let n = before.len() as int;
    let whole = before + seq![0xedu8, second, third] + behind;
    let expected = surrogates_replaced(before) + seq![0xefu8, 0xbfu8, 0xbdu8]
        + surrogates_replaced(behind);
    assert(whole[n] == 0xed && whole[n + 1] == second && whole[n + 2] == third);
    assert forall|i: int| surrogate_at(whole, i) == (surrogate_at(before, i) || i == n
        || surrogate_at(behind, i - n - 3)) by {
        if i >= n + 3 {
            assert(surrogate_at(whole, i) == surrogate_at(behind, i - n - 3));
        }
    }
    assert(surrogates_replaced(whole) =~= expected);
    if forall|i: int|
        0 <= i < before.len() - 2 && #[trigger] before[i] == 0xed ==> !(0xa0 <= before[i + 1]
            <= 0xbf && 0x80 <= before[i + 2] <= 0xbf) {
        assert(surrogates_replaced(before) =~= before);
    }
}

/// If UTF-8 is kept in a path, a component that is UTF-8 shows as what it encodes.
pub proof fn law_utf8_shows_as_it_is(path: Seq<Seq<u8>>, windows: bool, i: int)
    requires
        0 <= i < path.len(),
        valid_utf8(path[i]),
    ensures
        utf8_is_kept(path, windows) ==> part_text(path[i], windows) == decode_utf8(path[i]),
        utf8_is_kept(path, windows) && path.len() == 1 ==> shown(path, windows) == decode_utf8(
            path[0],
        ),
{
    if path.len() == 1 {
        assert(path =~= Seq::<Seq<u8>>::empty().push(path[0]));
        lemma_shown_push(Seq::empty(), path[0], windows);
    }
}

/// In a path that is all UTF-8 every component is, and is decoded by itself.
pub proof fn law_decoded_one_by_one(path: Seq<Seq<u8>>, i: int)
    requires
        0 <= i < path.len(),
    ensures
        all_utf8(path) ==> valid_utf8(path[i]),
        !valid_utf8(path[i]) ==> !all_utf8(path),
        decoded(path).len() == path.len(),
        decoded(path)[i] == decode_utf8(path[i]),
        all_utf8(seq![path[i]]) <==> valid_utf8(path[i]),
        all_utf8(path) <==> all_utf8(path.take(i)) && all_utf8(path.skip(i)),
{
    let one = seq![path[i]];
    assert(one[0] == path[i]);
    let (a, b) = (path.take(i), path.skip(i));
    if all_utf8(a) && all_utf8(b) {
        assert forall|k: int| 0 <= k < path.len() implies valid_utf8(#[trigger] path[k]) by {
            if k < i {
                assert(a[k] == path[k]);
            } else {
                assert(b[k - i] == path[k]);
            }
        }
    }
}

/// A path is its components, and a list of texts its texts, one for one.
pub proof fn law_path_is_its_components(path: Components, texts: Seq<String>, i: int)
    ensures
        path@.len() == path.parts@.len(),
        0 <= i < path.parts@.len() ==> path@[i] == path.parts@[i]@,
        texts_view(texts).len() == texts.len(),
        0 <= i < texts.len() ==> texts_view(texts)[i] == texts[i]@,
{
}

} // verus!
