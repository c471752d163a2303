//! Image markers in the text of an outgoing message.
//!
//! A marker `[IMAGE:path]` asks for the image at that path to be sent along. Everything else is
//! text, brackets included.

use super::api::MessageItem;
#[allow(unused_imports)]
use super::api::{item_views, media, ItemView, MediaView};
use crate::text::{chars_of, is_blank, text_between};
#[allow(unused_imports)]
use crate::text::{blank, texts, white_space};
use vstd::prelude::*;

verus! {

/// A piece of the text of an outgoing message.
#[derive(Debug, Clone)]
pub enum Segment {
    /// Text to send as it is
    Text(String),
    /// Path of an image to send
    Image(String),
}

/// What a piece of a message says.
pub enum SegmentView {
    Text(Seq<char>),
    Image(Seq<char>),
}

impl View for Segment {
    type V = SegmentView;

    open spec fn view(&self) -> SegmentView {
        match self {
            Segment::Text(t) => SegmentView::Text(t@),
            Segment::Image(p) => SegmentView::Image(p@),
        }
    }
}

/// What the pieces of a message say.
pub open spec fn segment_views(segments: Seq<Segment>) -> Seq<SegmentView> {
    segments.map_values(|s: Segment| s@)
}

/// What the marker of an image begins with.
pub open spec fn marker_head() -> Seq<char> {
    seq!['[', 'I', 'M', 'A', 'G', 'E', ':']
}

/// The marker of an image.
pub open spec fn marker(path: Seq<char>) -> Seq<char> {
    marker_head() + path + seq![']']
}

/// How a piece stands in the text of the message.
pub open spec fn written(segment: SegmentView) -> Seq<char> {
    match segment {
        SegmentView::Text(t) => t,
        SegmentView::Image(p) => marker(p),
    }
}

/// Length of the first piece of a text: a bracket reaches to the next closing bracket, or to the
/// end if there is none, and any other character stands alone.
pub open spec fn piece_len(s: Seq<char>) -> int
    recommends
        s.len() > 0,
{
    if s[0] != '[' {
        1
    } else {
        match s.index_of_first(']') {
            Some(close) => close + 1,
            None => s.len() as int,
        }
    }
}

/// What a piece of text stands for.
pub open spec fn segment_of(piece: Seq<char>) -> SegmentView {
    if piece.len() > marker_head().len() && piece.take(marker_head().len() as int) == marker_head()
        && piece.last() == ']' {
        SegmentView::Image(piece.subrange(marker_head().len() as int, piece.len() - 1))
    } else {
        SegmentView::Text(piece)
    }
}

/// The pieces of a text, in order.
pub open spec fn segments(s: Seq<char>) -> Seq<SegmentView>
    decreases s.len(),
{
    if s.len() == 0 {
        Seq::empty()
    } else {
        proof {
            piece_len_in_range(s);
        }
        seq![segment_of(s.take(piece_len(s)))] + segments(s.skip(piece_len(s)))
    }
}

/// The pieces of a text behind one another, as they stand in it.
pub open spec fn all_written(segs: Seq<SegmentView>) -> Seq<char>
    decreases segs.len(),
{
    if segs.len() == 0 {
        Seq::empty()
    } else {
        all_written(segs.drop_last()) + written(segs.last())
    }
}

/// The first piece of a text is never empty and lies within the text.
pub proof fn piece_len_in_range(s: Seq<char>)
    requires
        s.len() > 0,
    ensures
        0 < piece_len(s) <= s.len(),
{
    s.index_of_first_ensures(']');
}

proof fn all_written_cons(first: SegmentView, rest: Seq<SegmentView>)
    ensures
        all_written(seq![first] + rest) == written(first) + all_written(rest),
    decreases rest.len(),
{
    let whole = seq![first] + rest;
    if rest.len() == 0 {
        assert(whole.drop_last() =~= Seq::<SegmentView>::empty());
        assert(all_written(whole.drop_last()) == Seq::<char>::empty());
        assert(all_written(whole) =~= written(first) + all_written(rest));
    } else {
        all_written_cons(first, rest.drop_last());
        assert(whole.drop_last() =~= seq![first] + rest.drop_last());
        assert(whole.last() == rest.last());
        assert(all_written(whole) =~= written(first) + all_written(rest));
    }
}

/// Cutting a text into pieces loses nothing: written behind one another they are the text.
pub proof fn segments_make_up_the_text(s: Seq<char>)
    ensures
        all_written(segments(s)) == s,
    decreases s.len(),
{
    if s.len() > 0 {
        piece_len_in_range(s);
        let n = piece_len(s);
        segments_make_up_the_text(s.skip(n));
        all_written_cons(segment_of(s.take(n)), segments(s.skip(n)));
        assert(written(segment_of(s.take(n))) =~= s.take(n));
        assert(s.take(n) + s.skip(n) =~= s);
    }
}

/// A text without an opening bracket asks for no image.
pub proof fn no_bracket_no_image(s: Seq<char>)
    requires
        !s.contains('['),
    ensures
        forall|i: int| 0 <= i < segments(s).len() ==> #[trigger] segments(s)[i] is Text,
    decreases s.len(),
{
    if s.len() > 0 {
        piece_len_in_range(s);
        let n = piece_len(s);
        assert(s.contains(s[0]));
        assert(!s.skip(n).contains('[')) by {
            if s.skip(n).contains('[') {
                let i = choose|i: int| 0 <= i < s.skip(n).len() && s.skip(n)[i] == '[';
                assert(s[i + n] == '[');
            }
        }
        no_bracket_no_image(s.skip(n));
    }
}

/// A marker asks for the image at its path, which may hold any character but the closing bracket.
pub proof fn marker_asks_for_its_image(path: Seq<char>, rest: Seq<char>)
    requires
        !path.contains(']'),
    ensures
        segments(marker(path) + rest) == seq![SegmentView::Image(path)] + segments(rest),
{
    let s = marker(path) + rest;
    let close: int = (marker_head().len() + path.len()) as int;
    s.index_of_first_ensures(']');
    assert(s[close] == ']');
    assert(s.contains(']'));
    assert forall|i: int| 0 <= i < close implies s[i] != ']' by {
        if i >= marker_head().len() {
            assert(s[i] == path[i - marker_head().len()]);
            assert(path.contains(path[i - marker_head().len()]));
        }
    }
    assert(s.index_of_first(']') == Some(close));
    assert(s.take(close + 1) =~= marker(path));
    assert(s.skip(close + 1) =~= rest);
    assert(marker(path).take(marker_head().len() as int) =~= marker_head());
    assert(marker(path).subrange(marker_head().len() as int, marker(path).len() - 1) =~= path);
}

/// Cuts the text of a message into its pieces.
pub fn parse_markers(content: &str) -> (r: Vec<Segment>)
    ensures
        segment_views(r@) == segments(content@),
{
    let chars = chars_of(content);
    let mut out: Vec<Segment> = Vec::new();
    let mut at: usize = 0;
    assert(content@.skip(0) =~= content@);
    assert(segment_views(out@) + segments(content@) =~= segments(content@));
    while at < chars.len()
        invariant
            chars@ == content@,
            at <= chars@.len(),
            segment_views(out@) + segments(content@.skip(at as int)) == segments(content@),
        decreases chars.len() - at,
    {
        let ghost rest = content@.skip(at as int);
        let ghost done = segment_views(out@);
        let end: usize = piece_end(&chars, at);
        let segment = segment_at(&chars, at, end);
        proof {
            let n = piece_len(rest);
            assert(rest.take(n) =~= chars@.subrange(at as int, end as int));
            assert(rest.skip(n) =~= content@.skip(end as int));
            assert(segments(rest) == seq![segment_of(rest.take(n))] + segments(rest.skip(n)));
        }
        out.push(segment);
        proof {
            assert(segment_views(out@) =~= done.push(segment@));
            assert(segment_views(out@) + segments(content@.skip(end as int)) =~= done + segments(
                rest,
            ));
        }
        at = end;
    }
    assert(segment_views(out@) + segments(content@.skip(at as int)) =~= segment_views(out@));
    out
}

/// Where the piece that begins at a place ends.
fn piece_end(chars: &Vec<char>, at: usize) -> (r: usize)
    requires
        at < chars@.len(),
    ensures
        at < r <= chars@.len(),
        r - at == piece_len(chars@.skip(at as int)),
{
    let ghost rest = chars@.skip(at as int);
    assert(rest[0] == chars@[at as int]);
    assert(at < chars.len());
    if chars[at] != '[' {
        return at + 1;
    }
    proof {
        rest.index_of_first_ensures(']');
    }
    let mut i: usize = at;
    while i < chars.len()
        invariant
            at <= i <= chars@.len(),
            rest == chars@.skip(at as int),
            rest.len() > 0,
            rest[0] == '[',
            match rest.index_of_first(']') {
                Some(c) => 0 <= c < rest.len() && rest[c] == ']' && forall|j: int|
                    0 <= j < c ==> rest[j] != ']',
                None => forall|j: int| 0 <= j < rest.len() ==> rest[j] != ']',
            },
            forall|j: int| 0 <= j < i - at ==> rest[j] != ']',
        decreases chars.len() - i,
    {
        assert(rest[i - at] == chars@[i as int]);
        if chars[i] == ']' {
            return i + 1;
        }
        i = i + 1;
    }
    i
}

/// The piece between two places.
fn segment_at(chars: &Vec<char>, from: usize, to: usize) -> (r: Segment)
    requires
        from <= to <= chars@.len(),
    ensures
        r@ == segment_of(chars@.subrange(from as int, to as int)),
{
    let ghost piece = chars@.subrange(from as int, to as int);
    let head: usize = 7;
    if to - from > head && chars[from] == '[' && chars[from + 1] == 'I' && chars[from + 2] == 'M'
        && chars[from + 3] == 'A' && chars[from + 4] == 'G' && chars[from + 5] == 'E' && chars[from
        + 6] == ':' && chars[to - 1] == ']' {
        assert(piece.take(7) =~= marker_head());
        assert(piece.subrange(7, piece.len() - 1) =~= chars@.subrange(from + 7, to - 1));
        Segment::Image(text_between(chars, from + head, to - 1))
    } else {
        proof {
            if piece.len() > 7 && piece.take(7) == marker_head() {
                assert(forall|i: int| 0 <= i < 7 ==> #[trigger] piece.take(7)[i] == chars@[from + i]);
                assert(marker_head()[0] == '[' && piece.take(7)[0] == '[');
                assert(piece.take(7)[1] == 'I' && piece.take(7)[2] == 'M' && piece.take(7)[3] == 'A');
                assert(piece.take(7)[4] == 'G' && piece.take(7)[5] == 'E' && piece.take(7)[6] == ':');
            }
        }
        Segment::Text(text_between(chars, from, to))
    }
}

/// How many of the pieces are images.
pub open spec fn image_count(segs: Seq<SegmentView>) -> nat
    decreases segs.len(),
{
    if segs.len() == 0 {
        0
    } else {
        image_count(segs.drop_last()) + if segs.last() is Image {
            1nat
        } else {
            0nat
        }
    }
}

/// The paths of the images among the pieces, in order.
pub open spec fn image_paths(segs: Seq<SegmentView>) -> Seq<Seq<char>>
    decreases segs.len(),
{
    if segs.len() == 0 {
        Seq::empty()
    } else {
        match segs.last() {
            SegmentView::Image(p) => image_paths(segs.drop_last()).push(p),
            _ => image_paths(segs.drop_last()),
        }
    }
}

/// What came of uploading an image: its place on the CDN and its key, or nothing if that failed.
pub open spec fn upload_views(uploads: Seq<Option<(String, String)>>) -> Seq<
    Option<(Seq<char>, Seq<char>)>,
> {
    uploads.map_values(
        |u: Option<(String, String)>|
            match u {
                Some((param, key)) => Some((param@, key@)),
                None => None,
            },
    )
}

/// The text that is left when images were uploaded: the marker of an image stays where that failed.
/// There is one entry of `uploads` for each image.
pub open spec fn text_left(
    segs: Seq<SegmentView>,
    uploads: Seq<Option<(Seq<char>, Seq<char>)>>,
) -> Seq<char>
    decreases segs.len(),
{
    if segs.len() == 0 {
        Seq::empty()
    } else {
        let before = text_left(segs.drop_last(), uploads);
        if segs.last() is Image && uploads[image_count(segs.drop_last()) as int] is Some {
            before
        } else {
            before + written(segs.last())
        }
    }
}

/// The images that were uploaded, in order.
pub open spec fn images_sent(uploads: Seq<Option<(Seq<char>, Seq<char>)>>) -> Seq<ItemView>
    decreases uploads.len(),
{
    if uploads.len() == 0 {
        Seq::empty()
    } else {
        match uploads.last() {
            Some((param, key)) => images_sent(uploads.drop_last()).push(
                ItemView::Image(media(param, key)),
            ),
            None => images_sent(uploads.drop_last()),
        }
    }
}

/// The parts of a message: the text first, unless it is all white space, then the images.
pub open spec fn message_parts(
    segs: Seq<SegmentView>,
    uploads: Seq<Option<(Seq<char>, Seq<char>)>>,
) -> Seq<ItemView> {
    let text = text_left(segs, uploads);
    if blank(text) {
        images_sent(uploads)
    } else {
        seq![ItemView::Text(text)] + images_sent(uploads)
    }
}

/// The paths of the images to upload, in order.
pub fn images_to_upload(segs: &Vec<Segment>) -> (r: Vec<String>)
    ensures
        texts(r@) == image_paths(segment_views(segs@)),
        r@.len() == image_count(segment_views(segs@)),
{
    let mut paths: Vec<String> = Vec::new();
    let ghost views = segment_views(segs@);
    for i in 0..segs.len()
        invariant
            views == segment_views(segs@),
            texts(paths@) == image_paths(views.take(i as int)),
            paths@.len() == image_count(views.take(i as int)),
    {
        let ghost before = paths@;
        assert(views.take(i + 1).drop_last() =~= views.take(i as int));
        assert(views.take(i + 1).last() == segs@[i as int]@);
        if let Segment::Image(path) = &segs[i] {
            paths.push(path.clone());
            assert(texts(paths@) =~= texts(before).push(path@));
        }
    }
    assert(views.take(views.len() as int) =~= views);
    paths
}

/// Builds the parts of a message from its pieces and from what came of uploading each image.
pub fn assemble_items(segs: &Vec<Segment>, uploads: &Vec<Option<(String, String)>>) -> (r: Vec<
    MessageItem,
>)
    requires
        uploads@.len() == image_count(segment_views(segs@)),
    ensures
        item_views(r@) == message_parts(segment_views(segs@), upload_views(uploads@)),
{
    let ghost views = segment_views(segs@);
    let ghost sent = upload_views(uploads@);
    let mut text = String::new();
    let mut images: Vec<MessageItem> = Vec::new();
    let mut next: usize = 0;
    assert(sent.take(0) =~= Seq::empty());
    for i in 0..segs.len()
        invariant
            views == segment_views(segs@),
            sent == upload_views(uploads@),
            uploads@.len() == image_count(views),
            next == image_count(views.take(i as int)),
            text@ == text_left(views.take(i as int), sent),
            item_views(images@) == images_sent(sent.take(next as int)),
    {
        let ghost seen = views.take(i as int);
        let ghost before = images@;
        assert(views.take(i + 1).drop_last() =~= seen);
        assert(views.take(i + 1).last() == segs@[i as int]@);
        match &segs[i] {
            Segment::Text(t) => text.append(t.as_str()),
            Segment::Image(path) => {
                proof {
                    image_count_grows(views, i + 1);
                    assert(sent.take(next + 1).drop_last() =~= sent.take(next as int));
                    assert(sent.take(next + 1).last() == sent[next as int]);
                }
                assert(next < uploads.len());
                match &uploads[next] {
                    Some((param, key)) => {
                        let item = MessageItem::image(param.as_str(), key.as_str());
                        images.push(item);
                        assert(item_views(images@) =~= item_views(before).push(item@));
                    },
                    None => {
                        let ghost so_far = text@;
                        text.append("[IMAGE:");
                        text.append(path.as_str());
                        text.append("]");
                        proof {
                            reveal_strlit("[IMAGE:");
                            reveal_strlit("]");
                            assert("[IMAGE:"@ =~= marker_head());
                            assert("]"@ =~= seq![']']);
                            assert(text@ =~= so_far + marker(path@));
                        }
                    },
                }
                next = next + 1;
            },
        }
    }
    assert(views.take(views.len() as int) =~= views);
    assert(sent.take(sent.len() as int) =~= sent);
    if !is_blank(text.as_str()) {
        let first = MessageItem::text(text.as_str());
        let ghost before = images@;
        images.insert(0, first);
        assert(item_views(images@) =~= seq![first@] + item_views(before));
    }
    images
}

proof fn image_count_grows(segs: Seq<SegmentView>, n: int)
    requires
        0 <= n <= segs.len(),
    ensures
        image_count(segs.take(n)) <= image_count(segs),
    decreases segs.len(),
{
    if n < segs.len() {
        image_count_grows(segs.drop_last(), n);
        assert(segs.drop_last().take(n) =~= segs.take(n));
    } else {
        assert(segs.take(n) =~= segs);
    }
}

proof fn text_left_without_uploads(
    segs: Seq<SegmentView>,
    uploads: Seq<Option<(Seq<char>, Seq<char>)>>,
)
    requires
        uploads.len() >= image_count(segs),
        forall|i: int| 0 <= i < uploads.len() ==> #[trigger] uploads[i] is None,
    ensures
        text_left(segs, uploads) == all_written(segs),
    decreases segs.len(),
{
    if segs.len() > 0 {
        text_left_without_uploads(segs.drop_last(), uploads);
        if segs.last() is Image {
            assert(uploads[image_count(segs.drop_last()) as int] is None);
        }
    }
}

proof fn no_images_sent(uploads: Seq<Option<(Seq<char>, Seq<char>)>>)
    requires
        forall|i: int| 0 <= i < uploads.len() ==> #[trigger] uploads[i] is None,
    ensures
        images_sent(uploads) == Seq::<ItemView>::empty(),
    decreases uploads.len(),
{
    if uploads.len() > 0 {
        assert(uploads[uploads.len() - 1] is None);
        assert forall|i: int| 0 <= i < uploads.drop_last().len() implies #[trigger] uploads.drop_last()[i] is None by {
            assert(uploads[i] is None);
        }
        no_images_sent(uploads.drop_last());
    }
}

/// When no image can be uploaded the message goes out as the text that was written, markers
/// included; a text of white space alone sends nothing.
pub proof fn failed_uploads_keep_the_text(
    content: Seq<char>,
    uploads: Seq<Option<(Seq<char>, Seq<char>)>>,
)
    requires
        uploads.len() == image_count(segments(content)),
        forall|i: int| 0 <= i < uploads.len() ==> #[trigger] uploads[i] is None,
    ensures
        message_parts(segments(content), uploads) == (if blank(content) {
            Seq::empty()
        } else {
            seq![ItemView::Text(content)]
        }),
{
    segments_make_up_the_text(content);
    text_left_without_uploads(segments(content), uploads);
    no_images_sent(uploads);
    assert(seq![ItemView::Text(content)] + Seq::<ItemView>::empty() =~= seq![
        ItemView::Text(content),
    ]);
}

proof fn images_sent_are_images(uploads: Seq<Option<(Seq<char>, Seq<char>)>>)
    ensures
        forall|i: int|
            0 <= i < images_sent(uploads).len() ==> #[trigger] images_sent(uploads)[i] is Image,
    decreases uploads.len(),
{
    if uploads.len() > 0 {
        images_sent_are_images(uploads.drop_last());
    }
}

/// A message has at most one text, and it comes first; all else are images.
pub proof fn text_comes_first(
    content: Seq<char>,
    uploads: Seq<Option<(Seq<char>, Seq<char>)>>,
)
    ensures
        forall|i: int|
            0 < i < message_parts(segments(content), uploads).len() ==> #[trigger] message_parts(
                segments(content),
                uploads,
            )[i] is Image,
{
    images_sent_are_images(uploads);
    let images = images_sent(uploads);
    let text = text_left(segments(content), uploads);
    assert forall|i: int| 0 < i < (seq![ItemView::Text(text)] + images).len() implies #[trigger] (
    seq![ItemView::Text(text)] + images)[i] is Image by {
        assert(images[i - 1] is Image);
    }
}

/// The text of a message without its markers.
pub open spec fn plain_text(segs: Seq<SegmentView>) -> Seq<char>
    decreases segs.len(),
{
    if segs.len() == 0 {
        Seq::empty()
    } else {
        match segs.last() {
            SegmentView::Text(t) => plain_text(segs.drop_last()) + t,
            SegmentView::Image(_) => plain_text(segs.drop_last()),
        }
    }
}

proof fn text_left_after_uploads(
    segs: Seq<SegmentView>,
    uploads: Seq<Option<(Seq<char>, Seq<char>)>>,
)
    requires
        uploads.len() >= image_count(segs),
        forall|i: int| 0 <= i < uploads.len() ==> #[trigger] uploads[i] is Some,
    ensures
        text_left(segs, uploads) == plain_text(segs),
    decreases segs.len(),
{
    if segs.len() > 0 {
        text_left_after_uploads(segs.drop_last(), uploads);
        if segs.last() is Image {
            assert(uploads[image_count(segs.drop_last()) as int] is Some);
        }
    }
}

proof fn all_images_sent(uploads: Seq<Option<(Seq<char>, Seq<char>)>>)
    requires
        forall|i: int| 0 <= i < uploads.len() ==> #[trigger] uploads[i] is Some,
    ensures
        images_sent(uploads).len() == uploads.len(),
        forall|i: int|
            0 <= i < uploads.len() ==> #[trigger] images_sent(uploads)[i] == ItemView::Image(
                media((uploads[i]->0).0, (uploads[i]->0).1),
            ),
    decreases uploads.len(),
{
    if uploads.len() > 0 {
        let front = uploads.drop_last();
        assert forall|i: int| 0 <= i < front.len() implies #[trigger] front[i] is Some by {
            assert(uploads[i] is Some);
        }
        all_images_sent(front);
        assert(uploads[uploads.len() - 1] is Some);
        assert forall|i: int| 0 <= i < uploads.len() implies #[trigger] images_sent(uploads)[i]
            == ItemView::Image(media((uploads[i]->0).0, (uploads[i]->0).1)) by {
            if i < front.len() {
                assert(images_sent(uploads)[i] == images_sent(front)[i]);
                assert(front[i] == uploads[i]);
            }
        }
    }
}

/// When all images can be uploaded, the text goes out without the markers, and the images follow it
/// in the order of the markers.
pub proof fn uploaded_images_leave_the_text(
    content: Seq<char>,
    uploads: Seq<Option<(Seq<char>, Seq<char>)>>,
)
    requires
        uploads.len() == image_count(segments(content)),
        forall|i: int| 0 <= i < uploads.len() ==> #[trigger] uploads[i] is Some,
    ensures
        ({
            let text = plain_text(segments(content));
            let images = Seq::new(
                uploads.len(),
                |i: int| ItemView::Image(media((uploads[i]->0).0, (uploads[i]->0).1)),
            );
            message_parts(segments(content), uploads) == (if blank(text) {
                images
            } else {
                seq![ItemView::Text(text)] + images
            })
        }),
{
    text_left_after_uploads(segments(content), uploads);
    all_images_sent(uploads);
    assert(images_sent(uploads) =~= Seq::new(
        uploads.len(),
        |i: int| ItemView::Image(media((uploads[i]->0).0, (uploads[i]->0).1)),
    ));
}

proof fn first_piece(s: Seq<char>, piece: Seq<char>, rest: Seq<char>)
    requires
        s == piece + rest,
        s.len() > 0,
        piece_len(s) == piece.len(),
    ensures
        segments(s) == seq![segment_of(piece)] + segments(rest),
{
    assert(s.take(piece_len(s)) =~= piece);
    assert(s.skip(piece_len(s)) =~= rest);
}

proof fn image_paths_cons(first: SegmentView, rest: Seq<SegmentView>)
    ensures
        image_paths(seq![first] + rest) == (match first {
            SegmentView::Image(p) => seq![p],
            SegmentView::Text(_) => Seq::empty(),
        }) + image_paths(rest),
        image_count(seq![first] + rest) == (if first is Image {
            1nat
        } else {
            0nat
        }) + image_count(rest),
    decreases rest.len(),
{
    let whole = seq![first] + rest;
    let head: Seq<Seq<char>> = match first {
        SegmentView::Image(p) => seq![p],
        SegmentView::Text(_) => Seq::empty(),
    };
    if rest.len() == 0 {
        assert(whole.drop_last() =~= Seq::<SegmentView>::empty());
        assert(whole.last() == first);
        assert(image_paths(whole.drop_last()) =~= Seq::empty());
        assert(image_count(whole.drop_last()) == 0);
        assert(image_paths(whole) =~= head + image_paths(rest));
    } else {
        image_paths_cons(first, rest.drop_last());
        assert(whole.drop_last() =~= seq![first] + rest.drop_last());
        assert(whole.last() == rest.last());
        assert(image_paths(whole) =~= head + image_paths(rest));
    }
}

proof fn text_left_cons(
    first: SegmentView,
    rest: Seq<SegmentView>,
    uploads: Seq<Option<(Seq<char>, Seq<char>)>>,
)
    requires
        uploads.len() == image_count(seq![first] + rest),
    ensures
        first matches SegmentView::Text(t) ==> text_left(seq![first] + rest, uploads) == t
            + text_left(rest, uploads),
        first is Image ==> uploads.len() > 0 && text_left(seq![first] + rest, uploads) == (
        if uploads[0] is Some {
            Seq::empty()
        } else {
            written(first)
        }) + text_left(rest, uploads.skip(1)),
{
    image_paths_cons(first, rest);
    text_left_steps(first, rest, rest.len() as int, uploads);
    assert(rest.take(rest.len() as int) =~= rest);
}

proof fn text_left_steps(
    first: SegmentView,
    rest: Seq<SegmentView>,
    n: int,
    uploads: Seq<Option<(Seq<char>, Seq<char>)>>,
)
    requires
        0 <= n <= rest.len(),
        uploads.len() == image_count(seq![first] + rest),
    ensures
        ({
            let whole = seq![first] + rest.take(n);
            &&& first matches SegmentView::Text(t) ==> text_left(whole, uploads) == t + text_left(
                rest.take(n),
                uploads,
            )
            &&& first is Image ==> text_left(whole, uploads) == (if uploads[0] is Some {
                Seq::empty()
            } else {
                written(first)
            }) + text_left(rest.take(n), uploads.skip(1))
        }),
    decreases n,
{
    let whole = seq![first] + rest.take(n);
    image_paths_cons(first, rest);
    if n == 0 {
        assert(rest.take(0) =~= Seq::empty());
        assert(whole.drop_last() =~= Seq::<SegmentView>::empty());
        assert(whole.last() == first);
        assert(image_count(whole.drop_last()) == 0);
        assert(text_left(whole.drop_last(), uploads) =~= Seq::empty());
        assert(text_left(rest.take(0), uploads) =~= Seq::empty());
        assert(text_left(rest.take(0), uploads.skip(1)) =~= Seq::empty());
        match first {
            SegmentView::Text(t) => {
                assert(text_left(whole, uploads) =~= t + text_left(rest.take(0), uploads));
            },
            SegmentView::Image(_) => {
                assert(text_left(whole, uploads) =~= (if uploads[0] is Some {
                    Seq::empty()
                } else {
                    written(first)
                }) + text_left(rest.take(0), uploads.skip(1)));
            },
        }
    } else {
        let before = rest.take(n - 1);
        text_left_steps(first, rest, n - 1, uploads);
        assert(rest.take(n).drop_last() =~= before);
        assert(rest.take(n).last() == rest[n - 1]);
        assert(whole.drop_last() =~= seq![first] + before);
        assert(whole.last() == rest[n - 1]);
        image_paths_cons(first, before);
        image_count_grows(rest, n);
        let k: int = image_count(before) as int;
        match first {
            SegmentView::Text(t) => {
                assert(text_left(whole, uploads) =~= t + text_left(rest.take(n), uploads));
            },
            SegmentView::Image(_) => {
                if rest[n - 1] is Image {
                    assert(uploads.skip(1)[k] == uploads[k + 1]);
                }
                assert(text_left(whole, uploads) =~= (if uploads[0] is Some {
                    Seq::empty()
                } else {
                    written(first)
                }) + text_left(rest.take(n), uploads.skip(1)));
            },
        }
    }
}

/// What a text without an opening bracket adds in front of another: no image, and itself.
proof fn text_in_front(
    text: Seq<char>,
    rest: Seq<char>,
    uploads: Seq<Option<(Seq<char>, Seq<char>)>>,
)
    requires
        !text.contains('['),
    ensures
        image_paths(segments(text + rest)) == image_paths(segments(rest)),
        image_count(segments(text + rest)) == image_count(segments(rest)),
        uploads.len() == image_count(segments(rest)) ==> text_left(segments(text + rest), uploads)
            == text + text_left(segments(rest), uploads),
    decreases text.len(),
{
    if text.len() == 0 {
        assert(text + rest =~= rest);
        assert(text + text_left(segments(rest), uploads) =~= text_left(segments(rest), uploads));
    } else {
        let c = text[0];
        let more = text.drop_first();
        let after = more + rest;
        assert(text.contains(c));
        assert(!more.contains('[')) by {
            if more.contains('[') {
                let i = choose|i: int| 0 <= i < more.len() && more[i] == '[';
                assert(text[i + 1] == '[');
            }
        }
        text_in_front(more, rest, uploads);
        assert(text + rest =~= seq![c] + after);
        assert((text + rest)[0] == c);
        first_piece(text + rest, seq![c], after);
        assert(segment_of(seq![c]) == SegmentView::Text(seq![c]));
        image_paths_cons(SegmentView::Text(seq![c]), segments(after));
        assert(Seq::<Seq<char>>::empty() + image_paths(segments(after)) =~= image_paths(
            segments(after),
        ));
        if uploads.len() == image_count(segments(rest)) {
            text_left_cons(SegmentView::Text(seq![c]), segments(after), uploads);
            assert(seq![c] + (more + text_left(segments(rest), uploads)) =~= text + text_left(
                segments(rest),
                uploads,
            ));
        }
    }
}

/// Every marker asks for the image at its path, wherever it stands: behind a text without an opening
/// bracket, the path comes first among the images of the message, before those of what follows. When
/// the image was uploaded its marker is gone from the text, and when that failed it stays at its place.
pub proof fn markers_ask_for_images_anywhere(
    text: Seq<char>,
    path: Seq<char>,
    rest: Seq<char>,
    upload: Option<(Seq<char>, Seq<char>)>,
    uploads: Seq<Option<(Seq<char>, Seq<char>)>>,
)
    requires
        !text.contains('['),
        !path.contains(']'),
    ensures
        ({
            let content = text + "[IMAGE:"@ + path + "]"@ + rest;
            &&& image_paths(segments(content)) == seq![path] + image_paths(segments(rest))
            &&& image_count(segments(content)) == 1 + image_count(segments(rest))
            &&& uploads.len() == image_count(segments(rest)) ==> text_left(
                segments(content),
                seq![upload] + uploads,
            ) == text + (if upload is Some {
                Seq::empty()
            } else {
                "[IMAGE:"@ + path + "]"@
            }) + text_left(segments(rest), uploads)
        }),
{
    reveal_strlit("[IMAGE:");
    reveal_strlit("]");
    assert("[IMAGE:"@ =~= marker_head());
    assert("]"@ =~= seq![']']);
    let content = text + "[IMAGE:"@ + path + "]"@ + rest;
    let after = marker(path) + rest;
    let all = seq![upload] + uploads;
    assert(content =~= text + after);
    marker_asks_for_its_image(path, rest);
    let first = SegmentView::Image(path);
    image_paths_cons(first, segments(rest));
    text_in_front(text, after, all);
    if uploads.len() == image_count(segments(rest)) {
        text_left_cons(first, segments(rest), all);
        assert(all.skip(1) =~= uploads);
        assert(text + ((if upload is Some {
            Seq::<char>::empty()
        } else {
            marker(path)
        }) + text_left(segments(rest), uploads)) =~= text + (if upload is Some {
            Seq::<char>::empty()
        } else {
            marker(path)
        }) + text_left(segments(rest), uploads));
    }
}

/// Brackets around anything else ask for no image and stay in the text as they are.
pub proof fn other_brackets_stay_in_the_text(
    text: Seq<char>,
    inner: Seq<char>,
    rest: Seq<char>,
    uploads: Seq<Option<(Seq<char>, Seq<char>)>>,
)
    requires
        !text.contains('['),
        !inner.contains(']'),
        inner.len() < 6 || inner.take(6) != "IMAGE:"@,
    ensures
        ({
            let content = text + seq!['['] + inner + seq![']'] + rest;
            &&& image_paths(segments(content)) == image_paths(segments(rest))
            &&& image_count(segments(content)) == image_count(segments(rest))
            &&& uploads.len() == image_count(segments(rest)) ==> text_left(
                segments(content),
                uploads,
            ) == text + seq!['['] + inner + seq![']'] + text_left(segments(rest), uploads)
        }),
{
    reveal_strlit("IMAGE:");
    let content = text + seq!['['] + inner + seq![']'] + rest;
    let piece = seq!['['] + inner + seq![']'];
    let after = piece + rest;
    assert(content =~= text + after);
    let close: int = 1 + inner.len() as int;
    after.index_of_first_ensures(']');
    assert(after[close] == ']');
    assert(after.contains(']'));
    assert forall|i: int| 0 <= i < close implies after[i] != ']' by {
        if i > 0 {
            assert(after[i] == inner[i - 1]);
            assert(inner.contains(inner[i - 1]));
        }
    }
    assert(after.index_of_first(']') == Some(close));
    first_piece(after, piece, rest);
    assert(segment_of(piece) == SegmentView::Text(piece)) by {
        if piece.len() > 7 && piece.take(7) == marker_head() {
            assert forall|i: int| 0 <= i < 6 implies inner.take(6)[i] == "IMAGE:"@[i] by {
                assert(piece.take(7)[i + 1] == marker_head()[i + 1]);
                assert(piece[i + 1] == inner[i]);
            }
            assert(inner.take(6) =~= "IMAGE:"@);
        }
    }
    let first = SegmentView::Text(piece);
    image_paths_cons(first, segments(rest));
    assert(Seq::<Seq<char>>::empty() + image_paths(segments(rest)) =~= image_paths(segments(rest)));
    text_in_front(text, after, uploads);
    if uploads.len() == image_count(segments(rest)) {
        text_left_cons(first, segments(rest), uploads);
        assert(text + (piece + text_left(segments(rest), uploads)) =~= text + seq!['['] + inner
            + seq![']'] + text_left(segments(rest), uploads));
    }
}

/// A text without brackets, and one with a bracket that is never closed, asks for no image and is left
/// as it is.
pub proof fn unclosed_brackets_stay_in_the_text(text: Seq<char>, inner: Seq<char>)
    requires
        !text.contains('['),
        !inner.contains(']'),
    ensures
        image_paths(segments(text)) == Seq::<Seq<char>>::empty(),
        text_left(segments(text), Seq::empty()) == text,
        image_paths(segments(text + seq!['['] + inner)) == Seq::<Seq<char>>::empty(),
        text_left(segments(text + seq!['['] + inner), Seq::empty()) == text + seq!['['] + inner,
{
    let none = Seq::<char>::empty();
    let no_uploads = Seq::<Option<(Seq<char>, Seq<char>)>>::empty();
    assert(segments(none) =~= Seq::empty());
    text_in_front(text, none, no_uploads);
    assert(text + none =~= text);
    assert(image_count(segments(none)) == 0);
    assert(text_left(segments(none), no_uploads) =~= none);
    let piece = seq!['['] + inner;
    piece.index_of_first_ensures(']');
    assert(!piece.contains(']')) by {
        if piece.contains(']') {
            let i = choose|i: int| 0 <= i < piece.len() && piece[i] == ']';
            assert(inner[i - 1] == ']');
        }
    }
    assert(piece + none =~= piece);
    first_piece(piece, piece, none);
    assert(piece.contains(piece.last()));
    let first = SegmentView::Text(piece);
    image_paths_cons(first, segments(none));
    assert(image_paths(segments(piece)) =~= Seq::empty());
    text_left_cons(first, segments(none), no_uploads);
    text_in_front(text, piece, no_uploads);
    assert(text + piece =~= text + seq!['['] + inner);
    assert(piece + none =~= piece);
}

/// The images of a message are those that were uploaded, in the order of their markers, each with its
/// place and key.
pub proof fn images_are_sent_in_order(
    upload: Option<(Seq<char>, Seq<char>)>,
    uploads: Seq<Option<(Seq<char>, Seq<char>)>>,
)
    ensures
        images_sent(Seq::empty()) == Seq::<ItemView>::empty(),
        images_sent(seq![upload] + uploads) == (match upload {
            Some((param, key)) => seq![
                ItemView::Image(MediaView { param: Some(param), key: Some(key) }),
            ],
            None => Seq::empty(),
        }) + images_sent(uploads),
    decreases uploads.len(),
{
    let whole = seq![upload] + uploads;
    let first = match upload {
        Some((param, key)) => seq![
            ItemView::Image(MediaView { param: Some(param), key: Some(key) }),
        ],
        None => Seq::empty(),
    };
    if uploads.len() == 0 {
        assert(whole.drop_last() =~= Seq::empty());
        assert(whole.last() == upload);
        assert(images_sent(whole.drop_last()) =~= Seq::empty());
        assert(images_sent(whole) =~= first + images_sent(uploads));
    } else {
        images_are_sent_in_order(upload, uploads.drop_last());
        assert(whole.drop_last() =~= seq![upload] + uploads.drop_last());
        assert(whole.last() == uploads.last());
        assert(images_sent(whole) =~= first + images_sent(uploads));
    }
}

/// A message is sent with its text in front as soon as one character of it is not white space, and all
/// images follow.
pub proof fn text_is_sent_unless_blank(
    segs: Seq<SegmentView>,
    uploads: Seq<Option<(Seq<char>, Seq<char>)>>,
)
    ensures
        ({
            let text = text_left(segs, uploads);
            if exists|i: int| 0 <= i < text.len() && !white_space(#[trigger] text[i]) {
                message_parts(segs, uploads) == seq![ItemView::Text(text)] + images_sent(uploads)
            } else {
                message_parts(segs, uploads) == images_sent(uploads)
            }
        }),
{
}

/// What pieces and uploads say, one by one.
pub proof fn pieces_keep_their_places(segs: Seq<Segment>, uploads: Seq<Option<(String, String)>>)
    ensures
        segment_views(segs).len() == segs.len(),
        forall|i: int|
            0 <= i < segs.len() ==> #[trigger] segment_views(segs)[i] == (match segs[i] {
                Segment::Text(t) => SegmentView::Text(t@),
                Segment::Image(p) => SegmentView::Image(p@),
            }),
        upload_views(uploads).len() == uploads.len(),
        forall|i: int|
            0 <= i < uploads.len() ==> #[trigger] upload_views(uploads)[i] == (match uploads[i] {
                Some((param, key)) => Some((param@, key@)),
                None => None,
            }),
{
}

} // verus!
