//! Notebook rendering: turns an already-decoded list of notebook cells
//! into one markdown text plus the image files it refers to. Each code
//! cell's source becomes a fenced block, stream output becomes a plain
//! fenced block, and rich output is reduced to its richest media entry:
//! text media is inlined, image media is decoded and written beside the
//! text under a name derived from the cell number.

use vstd::prelude::*;
use vstd::string::*;
use vstd::utf8::encode_utf8;
use crate::render::{opt_ref_str_view, Renderer};
use crate::text::str_to_chars;

verus! {

/// The media flavors a notebook output can carry, reduced to the ones the
/// renderer distinguishes.
#[derive(Clone, Copy, Debug, PartialEq, Eq, Structural)]
pub enum MediaKind {
    Svg,
    Png,
    Jpeg,
    Gif,
    Html,
    Json,
    GeoJson,
    Latex,
    Markdown,
    Plain,
    Other,
}

/// One media entry of a rich output: its flavor and its payload, text for
/// text flavors and base64 data for image flavors.
pub struct MediaEntry {
    pub kind: MediaKind,
    pub payload: String,
}

/// The mathematical value of a media entry.
pub ghost struct MediaEntryView {
    pub kind: MediaKind,
    pub payload: Seq<char>,
}

impl View for MediaEntry {
    type V = MediaEntryView;

    open spec fn view(&self) -> MediaEntryView {
        MediaEntryView { kind: self.kind, payload: self.payload@ }
    }
}

/// One output of a code cell.
pub enum CellOutput {
    Stream(String),
    DisplayData(Vec<MediaEntry>),
    ExecuteResult(Vec<MediaEntry>),
    ErrorOutput,
}

/// One notebook cell, with its source lines already joined.
pub enum NotebookCell {
    Markdown(String),
    Code { source: String, outputs: Vec<CellOutput> },
    Raw(String),
}

/// An image file extracted from a rich output: its file name and its
/// decoded bytes.
#[derive(Debug)]
pub struct DecodedDisplayData {
    pub name: String,
    pub data: Vec<u8>,
}

/// The mathematical value of an extracted image.
pub ghost struct ImageView {
    pub name: Seq<char>,
    pub data: Seq<u8>,
}

impl View for DecodedDisplayData {
    type V = ImageView;

    open spec fn view(&self) -> ImageView {
        ImageView { name: self.name@, data: self.data@ }
    }
}

/// The reduction of one rich output: inline text, or an image file.
pub enum DecodedOutput {
    Text(String),
    Image(DecodedDisplayData),
}

/// The mathematical value of a reduced output.
pub ghost enum DecodedOutputView {
    Text(Seq<char>),
    Image(ImageView),
}

impl View for DecodedOutput {
    type V = DecodedOutputView;

    open spec fn view(&self) -> DecodedOutputView {
        match self {
            DecodedOutput::Text(t) => DecodedOutputView::Text(t@),
            DecodedOutput::Image(img) => DecodedOutputView::Image(img@),
        }
    }
}

/// A rendered notebook: the markdown text and the images it refers to.
pub struct RenderedNotebook {
    pub text: String,
    pub images: Vec<DecodedDisplayData>,
}

/// An error while reducing a rich output.
#[derive(Debug, PartialEq, Eq, Structural)]
pub enum NotebookError {
    /// An image payload is not valid base64 data.
    ImageData,
}

/// The richness rank of a media flavor: higher ranks are preferred when
/// one output carries several flavors.
pub open spec fn spec_rank(m: MediaKind) -> int {
    match m {
        MediaKind::Svg => 10,
        MediaKind::Png => 9,
        MediaKind::Jpeg => 8,
        MediaKind::Gif => 7,
        MediaKind::Html => 6,
        MediaKind::Json => 5,
        MediaKind::GeoJson => 4,
        MediaKind::Latex => 3,
        MediaKind::Markdown => 2,
        MediaKind::Plain => 1,
        MediaKind::Other => 0,
    }
}

/// The richness rank of a media flavor.
pub fn rank_media_types(media: &MediaKind) -> (r: usize)
    ensures
        r as int == spec_rank(*media),
{
    match media {
        MediaKind::Svg => 10,
        MediaKind::Png => 9,
        MediaKind::Jpeg => 8,
        MediaKind::Gif => 7,
        MediaKind::Html => 6,
        MediaKind::Json => 5,
        MediaKind::GeoJson => 4,
        MediaKind::Latex => 3,
        MediaKind::Markdown => 2,
        MediaKind::Plain => 1,
        MediaKind::Other => 0,
    }
}

/// The index of the richest media entry, the last one of maximal rank, or
/// `-1` for an empty list.
pub open spec fn richest_index(ms: Seq<MediaEntryView>) -> int
    decreases ms.len(),
{
    if ms.len() == 0 {
        -1
    } else {
        let r = richest_index(ms.drop_last());
        if r == -1 || spec_rank(ms.last().kind) >= spec_rank(ms[r].kind) {
            ms.len() - 1
        } else {
            r
        }
    }
}

/// The decimal digit character.
pub open spec fn spec_digit(d: int) -> char {
    if d == 0 {
        '0'
    } else if d == 1 {
        '1'
    } else if d == 2 {
        '2'
    } else if d == 3 {
        '3'
    } else if d == 4 {
        '4'
    } else if d == 5 {
        '5'
    } else if d == 6 {
        '6'
    } else if d == 7 {
        '7'
    } else if d == 8 {
        '8'
    } else {
        '9'
    }
}

/// The decimal rendering of a non-negative number.
pub open spec fn spec_dec(n: int) -> Seq<char>
    recommends
        n >= 0,
    decreases n,
{
    if n < 10 {
        seq![spec_digit(n)]
    } else {
        spec_dec(n / 10) + seq![spec_digit(n % 10)]
    }
}

/// Appends the decimal rendering of `n`.
fn push_decimal(out: &mut String, n: usize)
    ensures
        final(out)@ == old(out)@ + spec_dec(n as int),
    decreases n,
{
    if n >= 10 {
        proof {
            assert(n / 10 < n) by (nonlinear_arith)
                requires
                    n >= 10,
            ;
        }
        push_decimal(out, n / 10);
    }
    let d = n % 10;
    let c: char = if d == 0 {
        '0'
    } else if d == 1 {
        '1'
    } else if d == 2 {
        '2'
    } else if d == 3 {
        '3'
    } else if d == 4 {
        '4'
    } else if d == 5 {
        '5'
    } else if d == 6 {
        '6'
    } else if d == 7 {
        '7'
    } else if d == 8 {
        '8'
    } else {
        '9'
    };
    out.push(c);
    proof {
        if n < 10 {
            assert(n % 10 == n);
            assert(out@ =~= old(out)@ + spec_dec(n as int));
        } else {
            assert(out@ =~= old(out)@ + spec_dec(n as int));
        }
    }
}

/// The file name of an image extracted from the cell at `cell_nr`.
pub open spec fn spec_image_name(cell_nr: int, ext: Seq<char>) -> Seq<char> {
    spec_dec(cell_nr) + seq!['.'] + ext
}

/// Builds the file name of an image extracted from the cell at `cell_nr`.
fn image_name(cell_nr: usize, ext: &str) -> (r: String)
    ensures
        r@ == spec_image_name(cell_nr as int, ext@),
{
    let mut out = String::new();
    push_decimal(&mut out, cell_nr);
    out.push('.');
    out.append(ext);
    proof {
        assert(out@ =~= spec_image_name(cell_nr as int, ext@));
    }
    out
}

/// The bytes a base64 payload decodes to, where it is valid base64 data
/// under the standard alphabet.
pub uninterp spec fn base64_decoded(s: Seq<char>) -> Option<Seq<u8>>;

/// Relies on `base64::Engine::decode` with the standard alphabet: the
/// decoded bytes are a function of the payload characters alone.
#[verifier::external_body]
fn decode_base64(s: &str) -> (r: Option<Vec<u8>>)
    ensures
        match r {
            Some(v) => base64_decoded(s@) == Some(v@),
            None => base64_decoded(s@) is None,
        },
{
    base64::Engine::decode(&base64::prelude::BASE64_STANDARD, s).ok()
}

/// The views of a media list.
pub open spec fn media_views(ms: Seq<MediaEntry>) -> Seq<MediaEntryView> {
    ms.map_values(|m: MediaEntry| m@)
}

/// The reduction of one rich output at cell `cell_nr`: nothing for an
/// empty media list or one whose richest flavor is unsupported; inline
/// text for text flavors; a decoded image file for image flavors, whose
/// base64 payload must decode.
pub open spec fn spec_display_decision(cell_nr: int, ms: Seq<MediaEntryView>) -> Result<
    Option<DecodedOutputView>,
    NotebookError,
> {
    let ri = richest_index(ms);
    if ri == -1 {
        Ok(None)
    } else {
        let m = ms[ri];
        match m.kind {
            MediaKind::Svg => Ok(
                Some(
                    DecodedOutputView::Image(
                        ImageView {
                            name: spec_image_name(cell_nr, "svg"@),
                            data: encode_utf8(m.payload),
                        },
                    ),
                ),
            ),
            MediaKind::Png => match base64_decoded(m.payload) {
                Some(data) => Ok(
                    Some(
                        DecodedOutputView::Image(
                            ImageView { name: spec_image_name(cell_nr, "png"@), data },
                        ),
                    ),
                ),
                None => Err(NotebookError::ImageData),
            },
            MediaKind::Jpeg => match base64_decoded(m.payload) {
                Some(data) => Ok(
                    Some(
                        DecodedOutputView::Image(
                            ImageView { name: spec_image_name(cell_nr, "jpg"@), data },
                        ),
                    ),
                ),
                None => Err(NotebookError::ImageData),
            },
            MediaKind::Gif => match base64_decoded(m.payload) {
                Some(data) => Ok(
                    Some(
                        DecodedOutputView::Image(
                            ImageView { name: spec_image_name(cell_nr, "gif"@), data },
                        ),
                    ),
                ),
                None => Err(NotebookError::ImageData),
            },
            MediaKind::Other => Ok(None),
            _ => Ok(Some(DecodedOutputView::Text(m.payload))),
        }
    }
}

/// The index of the richest media entry of `data`, if any.
fn find_richest(data: &Vec<MediaEntry>) -> (r: Option<usize>)
    ensures
        match r {
            Some(i) => richest_index(media_views(data@)) == i as int && i < data@.len(),
            None => richest_index(media_views(data@)) == -1 && data@.len() == 0,
        },
{
    if data.len() == 0 {
        return None;
    }
    proof {
        let mv = media_views(data@);
        assert(mv.take(1).drop_last() =~= Seq::<MediaEntryView>::empty());
        assert(richest_index(Seq::<MediaEntryView>::empty()) == -1);
        assert(mv.take(1).len() == 1);
        assert(richest_index(mv.take(1)) == 0);
    }
    let mut best: usize = 0;
    let mut i: usize = 1;
    while i < data.len()
        invariant
            1 <= i <= data@.len(),
            best < i,
            richest_index(media_views(data@).take(i as int)) == best as int,
        decreases data@.len() - i,
    {
        proof {
            assert(media_views(data@).take(i as int + 1).drop_last() =~= media_views(
                data@,
            ).take(i as int));
            assert(media_views(data@).take(i as int + 1).last() == media_views(data@)[i as int]);
            assert(media_views(data@)[i as int] == data@[i as int]@);
            assert(media_views(data@).take(i as int)[best as int] == data@[best as int]@);
        }
        let ri = rank_media_types(&data[i].kind);
        let rb = rank_media_types(&data[best].kind);
        if ri >= rb {
            best = i;
        }
        i = i + 1;
    }
    proof {
        assert(media_views(data@).take(data@.len() as int) =~= media_views(data@));
    }
    Some(best)
}

/// Reduces one rich output of the cell at `cell_nr` to inline text or an
/// image file, picking the richest media flavor; an image payload that is
/// not valid base64 data is an error.
pub fn render_jupyter_display_data(cell_nr: usize, data: &Vec<MediaEntry>) -> (r: Result<
    Option<DecodedOutput>,
    NotebookError,
>)
    ensures
        match r {
            Ok(d) => spec_display_decision(cell_nr as int, media_views(data@)) == Ok::<
                _,
                NotebookError,
            >(
                match d {
                    Some(o) => Some(o@),
                    None => None,
                },
            ),
            Err(e) => spec_display_decision(cell_nr as int, media_views(data@)) == Err::<
                Option<DecodedOutputView>,
                _,
            >(e),
        },
{
    let ri = match find_richest(data) {
        None => {
            return Ok(None);
        },
        Some(i) => i,
    };
    let m = &data[ri];
    proof {
        assert(media_views(data@)[ri as int] == data@[ri as int]@);
    }
    match m.kind {
        MediaKind::Svg => {
            let name = image_name(cell_nr, "svg");
            let bytes = m.payload.as_str().as_bytes_vec();
            Ok(Some(DecodedOutput::Image(DecodedDisplayData { name, data: bytes })))
        },
        MediaKind::Png => match decode_base64(m.payload.as_str()) {
            Some(bytes) => Ok(
                Some(
                    DecodedOutput::Image(
                        DecodedDisplayData { name: image_name(cell_nr, "png"), data: bytes },
                    ),
                ),
            ),
            None => Err(NotebookError::ImageData),
        },
        MediaKind::Jpeg => match decode_base64(m.payload.as_str()) {
            Some(bytes) => Ok(
                Some(
                    DecodedOutput::Image(
                        DecodedDisplayData { name: image_name(cell_nr, "jpg"), data: bytes },
                    ),
                ),
            ),
            None => Err(NotebookError::ImageData),
        },
        MediaKind::Gif => match decode_base64(m.payload.as_str()) {
            Some(bytes) => Ok(
                Some(
                    DecodedOutput::Image(
                        DecodedDisplayData { name: image_name(cell_nr, "gif"), data: bytes },
                    ),
                ),
            ),
            None => Err(NotebookError::ImageData),
        },
        MediaKind::Other => Ok(None),
        _ => Ok(Some(DecodedOutput::Text(m.payload.clone()))),
    }
}

/// A fenced code block holding the cell source.
pub open spec fn code_chunk(source: Seq<char>) -> Seq<char> {
    seq!['`', '`', '`', 'p', 'y', 't', 'h', 'o', 'n', '\n'] + source + seq!['\n', '`', '`', '`']
}

/// A plain fenced block holding stream output or raw source.
pub open spec fn fenced_chunk(text: Seq<char>) -> Seq<char> {
    seq!['`', '`', '`', '\n'] + text + seq!['\n', '`', '`', '`']
}

/// The markdown image reference for an extracted image.
pub open spec fn image_chunk(name: Seq<char>) -> Seq<char> {
    seq!['!', '[', 'i', 'm', 'a', 'g', 'e', ']', '('] + name + seq![')']
}

/// The text chunks and images one cell's outputs contribute, in order.
pub open spec fn spec_output_chunks(cell_nr: int, outs: Seq<CellOutput>) -> Result<
    (Seq<Seq<char>>, Seq<ImageView>),
    NotebookError,
>
    decreases outs.len(),
{
    if outs.len() == 0 {
        Ok((Seq::empty(), Seq::empty()))
    } else {
        match spec_output_chunks(cell_nr, outs.drop_last()) {
            Err(e) => Err(e),
            Ok(rest) => match outs.last() {
                CellOutput::Stream(t) => Ok((rest.0.push(fenced_chunk(t@)), rest.1)),
                CellOutput::DisplayData(ms) => match spec_display_decision(
                    cell_nr,
                    media_views(ms@),
                ) {
                    Err(e) => Err(e),
                    Ok(None) => Ok(rest),
                    Ok(Some(DecodedOutputView::Text(t))) => Ok((rest.0.push(t), rest.1)),
                    Ok(Some(DecodedOutputView::Image(img))) => Ok(
                        (rest.0.push(image_chunk(img.name)), rest.1.push(img)),
                    ),
                },
                CellOutput::ExecuteResult(ms) => match spec_display_decision(
                    cell_nr,
                    media_views(ms@),
                ) {
                    Err(e) => Err(e),
                    Ok(None) => Ok(rest),
                    Ok(Some(DecodedOutputView::Text(t))) => Ok((rest.0.push(t), rest.1)),
                    Ok(Some(DecodedOutputView::Image(img))) => Ok(
                        (rest.0.push(image_chunk(img.name)), rest.1.push(img)),
                    ),
                },
                CellOutput::ErrorOutput => Ok(rest),
            },
        }
    }
}

/// The text chunks and images one cell contributes.
pub open spec fn spec_cell_chunks(cell_nr: int, cell: NotebookCell) -> Result<
    (Seq<Seq<char>>, Seq<ImageView>),
    NotebookError,
> {
    match cell {
        NotebookCell::Markdown(source) => Ok((seq![source@], Seq::empty())),
        NotebookCell::Code { source, outputs } => match spec_output_chunks(cell_nr, outputs@) {
            Err(e) => Err(e),
            Ok(rest) => Ok((seq![code_chunk(source@)] + rest.0, rest.1)),
        },
        NotebookCell::Raw(source) => Ok((seq![fenced_chunk(source@)], Seq::empty())),
    }
}

/// The text chunks and images of the first `upto` cells.
pub open spec fn spec_notebook_chunks(cells: Seq<NotebookCell>, upto: int) -> Result<
    (Seq<Seq<char>>, Seq<ImageView>),
    NotebookError,
>
    decreases upto,
{
    if upto <= 0 {
        Ok((Seq::empty(), Seq::empty()))
    } else {
        match spec_notebook_chunks(cells, upto - 1) {
            Err(e) => Err(e),
            Ok(rest) => match spec_cell_chunks(upto - 1, cells[upto - 1]) {
                Err(e) => Err(e),
                Ok(more) => Ok((rest.0 + more.0, rest.1 + more.1)),
            },
        }
    }
}

/// Chunks joined with blank lines.
pub open spec fn join_chunks(cs: Seq<Seq<char>>) -> Seq<char>
    decreases cs.len(),
{
    if cs.len() == 0 {
        Seq::empty()
    } else if cs.len() == 1 {
        cs[0]
    } else {
        join_chunks(cs.drop_last()) + seq!['\n', '\n'] + cs.last()
    }
}

/// The views of extracted images.
pub open spec fn image_views(is: Seq<DecodedDisplayData>) -> Seq<ImageView> {
    is.map_values(|i: DecodedDisplayData| i@)
}

/// The views of the accumulated chunks.
pub open spec fn chunk_views(cs: Seq<String>) -> Seq<Seq<char>> {
    cs.map_values(|c: String| c@)
}

/// Once some output fails to decode, the whole output run fails the same
/// way.
proof fn lemma_output_err_persists(cell_nr: int, outs: Seq<CellOutput>, n: int)
    requires
        0 <= n <= outs.len(),
        spec_output_chunks(cell_nr, outs.take(n)) is Err,
    ensures
        spec_output_chunks(cell_nr, outs) == spec_output_chunks(cell_nr, outs.take(n)),
    decreases outs.len() - n,
{
    if n < outs.len() {
        assert(outs.take(n + 1).drop_last() =~= outs.take(n));
        lemma_output_err_persists(cell_nr, outs, n + 1);
    } else {
        assert(outs.take(n) =~= outs);
    }
}

/// Once some cell fails to render, the whole notebook fails the same way.
proof fn lemma_notebook_err_persists(cells: Seq<NotebookCell>, n: int)
    requires
        0 <= n <= cells.len(),
        spec_notebook_chunks(cells, n) is Err,
    ensures
        spec_notebook_chunks(cells, cells.len() as int) == spec_notebook_chunks(cells, n),
    decreases cells.len() - n,
{
    if n < cells.len() {
        lemma_notebook_err_persists(cells, n + 1);
    }
}

/// Appends what one rich output contributes: nothing, an inline text
/// chunk, or an image reference plus the image itself.
fn append_decoded_output(
    chunks: &mut Vec<String>,
    images: &mut Vec<DecodedDisplayData>,
    cell_nr: usize,
    ms: &Vec<MediaEntry>,
) -> (r: Result<(), NotebookError>)
    ensures
        match spec_display_decision(cell_nr as int, media_views(ms@)) {
            Ok(d) => r is Ok && (match d {
                None => final(chunks)@ == old(chunks)@ && final(images)@ == old(images)@,
                Some(DecodedOutputView::Text(t)) => chunk_views(final(chunks)@) == chunk_views(
                    old(chunks)@,
                ).push(t) && final(images)@ == old(images)@,
                Some(DecodedOutputView::Image(img)) => chunk_views(final(chunks)@) == chunk_views(
                    old(chunks)@,
                ).push(image_chunk(img.name)) && image_views(final(images)@) == image_views(
                    old(images)@,
                ).push(img),
            }),
            Err(e) => r == Err::<(), NotebookError>(e) && *final(chunks) == *old(chunks)
                && *final(images) == *old(images),
        },
{
    match render_jupyter_display_data(cell_nr, ms) {
        Ok(None) => Ok(()),
        Ok(Some(DecodedOutput::Text(t))) => {
            let ghost cb = chunk_views(chunks@);
            let ghost tv = t@;
            chunks.push(t);
            proof {
                assert(chunk_views(chunks@) =~= cb.push(tv));
            }
            Ok(())
        },
        Ok(Some(DecodedOutput::Image(img))) => {
            let mut link = String::new();
            link.push('!');
            link.push('[');
            link.push('i');
            link.push('m');
            link.push('a');
            link.push('g');
            link.push('e');
            link.push(']');
            link.push('(');
            link.append(img.name.as_str());
            link.push(')');
            proof {
                assert(link@ =~= image_chunk(img.name@));
            }
            let ghost cb = chunk_views(chunks@);
            let ghost ib = image_views(images@);
            let ghost iv = img@;
            chunks.push(link);
            images.push(img);
            proof {
                assert(chunk_views(chunks@) =~= cb.push(image_chunk(iv.name)));
                assert(image_views(images@) =~= ib.push(iv));
            }
            Ok(())
        },
        Err(e) => Err(e),
    }
}

/// Appends a plain fenced block.
fn push_fenced(chunks: &mut Vec<String>, text: &str)
    ensures
        chunk_views(final(chunks)@) == chunk_views(old(chunks)@).push(fenced_chunk(text@)),
{
    let mut block = String::new();
    block.push('`');
    block.push('`');
    block.push('`');
    block.push('\n');
    block.append(text);
    block.push('\n');
    block.push('`');
    block.push('`');
    block.push('`');
    proof {
        assert(block@ =~= fenced_chunk(text@));
    }
    let ghost cb = chunk_views(chunks@);
    chunks.push(block);
    proof {
        assert(chunk_views(chunks@) =~= cb.push(fenced_chunk(text@)));
    }
}

/// Renders a notebook: the front matter for its name, then every cell in
/// order, joined with blank lines, plus the images its rich outputs
/// produce; an undecodable image payload fails the whole notebook.
pub fn render_notebook<R: Renderer>(
    name: Option<&str>,
    notebook: &Vec<NotebookCell>,
    renderer: &R,
) -> (r: Result<RenderedNotebook, NotebookError>)
    ensures
        ({
            let chunks = spec_notebook_chunks(notebook@, notebook@.len() as int);
            match r {
                Ok(rn) => chunks matches Ok(pair) && rn.text@ == join_chunks(
                    seq![renderer.spec_front_matter(opt_ref_str_view(name))] + pair.0,
                ) && image_views(rn.images@) == pair.1,
                Err(e) => chunks == Err::<(Seq<Seq<char>>, Seq<ImageView>), _>(e),
            }
        }),
{
    let front_matter = renderer.render_front_matter(name);
    let mut chunks: Vec<String> = Vec::new();
    chunks.push(front_matter);
    let mut images: Vec<DecodedDisplayData> = Vec::new();
    let ghost fm = renderer.spec_front_matter(opt_ref_str_view(name));
    let ghost mut acc_chunks: Seq<Seq<char>> = Seq::empty();
    let ghost mut acc_images: Seq<ImageView> = Seq::empty();
    proof {
        assert(chunk_views(chunks@) =~= seq![fm] + acc_chunks);
        assert(image_views(images@) =~= acc_images);
    }
    let mut i: usize = 0;
    while i < notebook.len()
        invariant
            i <= notebook@.len(),
            fm == renderer.spec_front_matter(opt_ref_str_view(name)),
            spec_notebook_chunks(notebook@, i as int) == Ok::<_, NotebookError>(
                (acc_chunks, acc_images),
            ),
            chunk_views(chunks@) == seq![fm] + acc_chunks,
            image_views(images@) == acc_images,
        decreases notebook@.len() - i,
    {
        match &notebook[i] {
            NotebookCell::Markdown(source) => {
                let ghost cb = chunk_views(chunks@);
                chunks.push(source.clone());
                proof {
                    assert(chunk_views(chunks@) =~= cb.push(source@));
                    acc_chunks = acc_chunks + seq![source@];
                    assert(chunk_views(chunks@) =~= seq![fm] + acc_chunks);
                    assert(acc_images + Seq::<ImageView>::empty() =~= acc_images);
                    assert(spec_notebook_chunks(notebook@, i as int).unwrap().0
                        + seq![source@] =~= acc_chunks);
                }
            },
            NotebookCell::Code { source, outputs } => {
                let mut code = String::new();
                code.push('`');
                code.push('`');
                code.push('`');
                code.push('p');
                code.push('y');
                code.push('t');
                code.push('h');
                code.push('o');
                code.push('n');
                code.push('\n');
                code.append(source.as_str());
                code.push('\n');
                code.push('`');
                code.push('`');
                code.push('`');
                proof {
                    assert(code@ =~= code_chunk(source@));
                }
                let ghost cb = chunk_views(chunks@);
                chunks.push(code);
                proof {
                    assert(chunk_views(chunks@) =~= cb.push(code_chunk(source@)));
                }
                let ghost srcv = source@;
                let ghost mut out_chunks: Seq<Seq<char>> = Seq::empty();
                let ghost mut out_images: Seq<ImageView> = Seq::empty();
                proof {
                    assert(outputs@.take(0) =~= Seq::<CellOutput>::empty());
                    assert(chunk_views(chunks@) =~= seq![fm] + acc_chunks + seq![
                        code_chunk(srcv),
                    ] + out_chunks);
                    assert(image_views(images@) =~= acc_images + out_images);
                }
                let mut j: usize = 0;
                while j < outputs.len()
                    invariant
                        j <= outputs@.len(),
                        i < notebook@.len(),
                        notebook@[i as int] matches NotebookCell::Code {
                            source: s2,
                            outputs: o2,
                        } && s2@ == srcv && o2@ == outputs@,
                        fm == renderer.spec_front_matter(opt_ref_str_view(name)),
                        spec_notebook_chunks(notebook@, i as int) == Ok::<_, NotebookError>(
                            (acc_chunks, acc_images),
                        ),
                        spec_output_chunks(i as int, outputs@.take(j as int)) == Ok::<
                            _,
                            NotebookError,
                        >((out_chunks, out_images)),
                        chunk_views(chunks@) == seq![fm] + acc_chunks + seq![code_chunk(srcv)]
                            + out_chunks,
                        image_views(images@) == acc_images + out_images,
                    decreases outputs@.len() - j,
                {
                    proof {
                        assert(outputs@.take(j as int + 1).drop_last() =~= outputs@.take(
                            j as int,
                        ));
                        assert(outputs@.take(j as int + 1).last() == outputs@[j as int]);
                    }
                    match &outputs[j] {
                        CellOutput::Stream(text) => {
                            push_fenced(&mut chunks, text.as_str());
                            proof {
                                out_chunks = out_chunks.push(fenced_chunk(text@));
                                assert(chunk_views(chunks@) =~= seq![fm] + acc_chunks + seq![
                                    code_chunk(srcv),
                                ] + out_chunks);
                            }
                        },
                        CellOutput::DisplayData(ms) => {
                            match append_decoded_output(&mut chunks, &mut images, i, ms) {
                                Ok(_) => {
                                    proof {
                                        match spec_display_decision(
                                            i as int,
                                            media_views(ms@),
                                        ) {
                                            Ok(None) => {},
                                            Ok(Some(DecodedOutputView::Text(t))) => {
                                                out_chunks = out_chunks.push(t);
                                            },
                                            Ok(Some(DecodedOutputView::Image(img))) => {
                                                out_chunks = out_chunks.push(image_chunk(
                                                    img.name,
                                                ));
                                                out_images = out_images.push(img);
                                            },
                                            Err(_) => {
                                                assert(false);
                                            },
                                        }
                                        assert(chunk_views(chunks@) =~= seq![fm] + acc_chunks
                                            + seq![code_chunk(srcv)] + out_chunks);
                                        assert(image_views(images@) =~= acc_images + out_images);
                                    }
                                },
                                Err(e) => {
                                    proof {
                                        lemma_output_err_persists(
                                            i as int,
                                            outputs@,
                                            j as int + 1,
                                        );
                                        lemma_notebook_err_persists(notebook@, i as int + 1);
                                    }
                                    return Err(e);
                                },
                            }
                        },
                        CellOutput::ExecuteResult(ms) => {
                            match append_decoded_output(&mut chunks, &mut images, i, ms) {
                                Ok(_) => {
                                    proof {
                                        match spec_display_decision(
                                            i as int,
                                            media_views(ms@),
                                        ) {
                                            Ok(None) => {},
                                            Ok(Some(DecodedOutputView::Text(t))) => {
                                                out_chunks = out_chunks.push(t);
                                            },
                                            Ok(Some(DecodedOutputView::Image(img))) => {
                                                out_chunks = out_chunks.push(image_chunk(
                                                    img.name,
                                                ));
                                                out_images = out_images.push(img);
                                            },
                                            Err(_) => {
                                                assert(false);
                                            },
                                        }
                                        assert(chunk_views(chunks@) =~= seq![fm] + acc_chunks
                                            + seq![code_chunk(srcv)] + out_chunks);
                                        assert(image_views(images@) =~= acc_images + out_images);
                                    }
                                },
                                Err(e) => {
                                    proof {
                                        lemma_output_err_persists(
                                            i as int,
                                            outputs@,
                                            j as int + 1,
                                        );
                                        lemma_notebook_err_persists(notebook@, i as int + 1);
                                    }
                                    return Err(e);
                                },
                            }
                        },
                        CellOutput::ErrorOutput => (),
                    }
                    j = j + 1;
                }
                proof {
                    assert(outputs@.take(outputs@.len() as int) =~= outputs@);
                    acc_chunks = acc_chunks + (seq![code_chunk(srcv)] + out_chunks);
                    acc_images = acc_images + out_images;
                    assert(chunk_views(chunks@) =~= seq![fm] + acc_chunks);
                    assert(image_views(images@) =~= acc_images);
                }
            },
            NotebookCell::Raw(source) => {
                push_fenced(&mut chunks, source.as_str());
                proof {
                    acc_chunks = acc_chunks + seq![fenced_chunk(source@)];
                    assert(chunk_views(chunks@) =~= seq![fm] + acc_chunks);
                    assert(acc_images + Seq::<ImageView>::empty() =~= acc_images);
                }
            },
        }
        i = i + 1;
    }
    let mut text: Vec<char> = Vec::new();
    let ghost all_chunks = chunk_views(chunks@);
    let mut k: usize = 0;
    proof {
        assert(all_chunks.take(0) =~= Seq::<Seq<char>>::empty());
    }
    while k < chunks.len()
        invariant
            k <= chunks@.len(),
            all_chunks == chunk_views(chunks@),
            text@ == join_chunks(all_chunks.take(k as int)),
        decreases chunks@.len() - k,
    {
        if k > 0 {
            text.push('\n');
            text.push('\n');
        }
        let cs = str_to_chars(chunks[k].as_str());
        let mut t: usize = 0;
        let ghost text_before = text@;
        while t < cs.len()
            invariant
                t <= cs@.len(),
                text@ == text_before + cs@.subrange(0, t as int),
            decreases cs@.len() - t,
        {
            text.push(cs[t]);
            t = t + 1;
            assert(text@ =~= text_before + cs@.subrange(0, t as int));
        }
        k = k + 1;
        proof {
            assert(cs@.subrange(0, cs@.len() as int) =~= cs@);
            assert(chunk_views(chunks@)[k as int - 1] == chunks@[k as int - 1]@);
            assert(all_chunks.take(k as int).drop_last() =~= all_chunks.take(k as int - 1));
            assert(all_chunks.take(k as int).last() == all_chunks[k as int - 1]);
            assert(text@ =~= join_chunks(all_chunks.take(k as int)));
        }
    }
    proof {
        assert(all_chunks.take(all_chunks.len() as int) =~= all_chunks);
        assert(all_chunks =~= seq![fm] + acc_chunks);
    }
    Ok(RenderedNotebook { text: crate::text::chars_to_string(&text), images })
}

} // verus!
