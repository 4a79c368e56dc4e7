//! Caption text for sharing a film photograph: title, camera, film and lab
//! lines, then hashtags derived from the film and the camera.

use vstd::prelude::*;

verus! {

/// Hashtags for colour film.
pub const COLOR_FILM_TAGS: &'static str = "#colorFilm #filmPhotography #analogPhotography #filmIsNotDead #iStillShootFilm #shootFilm #filmCommunity #filmLovers #colorFilmPhotography #filmShooter #analogLove #filmLife #analogVibes #analogLove";

/// Hashtags for black and white film.
pub const BLACK_AND_WHITE_FILM_TAGS: &'static str = "#blackAndWhitePhotography #BWPhotography #analogPhotography #filmPhotography #classicBW #filmIsNotDead #shootFilm #iStillShootFilm #filmCommunity #BWFilm #BWFilmPhotography #filmLovers #monochromePhotography #filmShooter #BlackAndWhiteFilm #analogLove #filmLife";

/// The extra hashtag for Lomography film.
pub const LOMOGRAPHY_TAG: &'static str = " #HeyLomography";

/// The kind of film a photograph was shot on.
#[derive(Clone, Copy, Debug, Default, PartialEq, Eq, Structural)]
pub enum FilmType {
    /// Color film
    #[default]
    Color,
    /// Black & White film
    BlackAndWhite,
    /// Lomography Color film
    LomographyColor,
    /// Lomography Black & White film
    LomographyBlackAndWhite,
}

/// What a caption is made from.
#[derive(Clone, Debug)]
pub struct CaptionArgs {
    /// Camera used
    pub camera: String,
    /// Title of the caption
    pub title: Option<String>,
    /// Film used
    pub film: Option<String>,
    /// Type of the film
    pub film_type: Option<FilmType>,
    /// Lab used
    pub lab: Option<String>,
    /// Format used
    pub format: Option<String>,
}

/// `s` cut at every `sep`; `n` separators give `n + 1` pieces, empty ones
/// included.
pub open spec fn split_on(s: Seq<char>, sep: char) -> Seq<Seq<char>>
    decreases s.len(),
{
    if s.len() == 0 {
        seq![Seq::empty()]
    } else {
        let prev = split_on(s.drop_last(), sep);
        if s.last() == sep {
            prev.push(Seq::empty())
        } else {
            prev.update(prev.len() - 1, prev.last().push(s.last()))
        }
    }
}

/// A piece that opens with `(` is left out.
pub open spec fn is_aside(p: Seq<char>) -> bool {
    p.len() > 0 && p[0] == '('
}

/// A piece without its leading `@`, if it has one.
pub open spec fn stripped(p: Seq<char>) -> Seq<char> {
    if p.len() > 0 && p[0] == '@' {
        p.subrange(1, p.len() as int)
    } else {
        p
    }
}

/// The pieces that are not asides, each stripped of a leading `@`.
pub open spec fn kept(pieces: Seq<Seq<char>>) -> Seq<Seq<char>>
    decreases pieces.len(),
{
    if pieces.len() == 0 {
        Seq::empty()
    } else {
        let prev = kept(pieces.drop_last());
        if is_aside(pieces.last()) {
            prev
        } else {
            prev.push(stripped(pieces.last()))
        }
    }
}

/// The pieces written one after the other.
pub open spec fn joined(parts: Seq<Seq<char>>) -> Seq<char>
    decreases parts.len(),
{
    if parts.len() == 0 {
        Seq::empty()
    } else {
        joined(parts.drop_last()) + parts.last()
    }
}

/// For each `k`, the first `k + 1` parts joined.
pub open spec fn running_joins(parts: Seq<Seq<char>>) -> Seq<Seq<char>>
    decreases parts.len(),
{
    if parts.len() == 0 {
        Seq::empty()
    } else {
        running_joins(parts.drop_last()).push(joined(parts))
    }
}

/// The growing prefixes of `input` cut at `sep`, asides dropped and leading
/// `@` removed: "Kodak Portra 400" gives "Kodak", "KodakPortra",
/// "KodakPortra400".
pub open spec fn accumulated(input: Seq<char>, sep: char) -> Seq<Seq<char>> {
    running_joins(kept(split_on(input, sep)))
}

/// Each part as a hashtag, each after a space.
pub open spec fn tag_list(parts: Seq<Seq<char>>) -> Seq<char>
    decreases parts.len(),
{
    if parts.len() == 0 {
        Seq::empty()
    } else {
        tag_list(parts.drop_last()) + " #"@ + parts.last()
    }
}

/// The fixed hashtags for a film type.
pub open spec fn film_type_tags(t: FilmType) -> Seq<char> {
    match t {
        FilmType::Color | FilmType::LomographyColor => COLOR_FILM_TAGS@,
        FilmType::BlackAndWhite | FilmType::LomographyBlackAndWhite => BLACK_AND_WHITE_FILM_TAGS@,
    }
}

/// The Lomography hashtag, for Lomography film only.
pub open spec fn lomography_tags(t: FilmType) -> Seq<char> {
    match t {
        FilmType::LomographyColor | FilmType::LomographyBlackAndWhite => LOMOGRAPHY_TAG@,
        _ => Seq::empty(),
    }
}

/// The hashtag line: the film type's tags, the format twice, then the
/// accumulated words of the film and of the camera.
pub open spec fn hashtags(film: Seq<char>, film_type: FilmType, camera: Seq<char>, format: Seq<char>) -> Seq<char> {
    film_type_tags(film_type) + lomography_tags(film_type) + " #"@ + format + " #"@ + format + "film"@
        + tag_list(accumulated(film, ' ')) + tag_list(accumulated(camera, ' '))
}

/// The title line's text: the title, or `.` without one.
pub open spec fn title_part(c: CaptionArgs) -> Seq<char> {
    match c.title {
        Some(t) => t@,
        None => "."@,
    }
}

/// The film line, where a film is given.
pub open spec fn film_part(c: CaptionArgs) -> Seq<char> {
    match c.film {
        Some(f) => "🎞️ "@ + f@ + "\n"@,
        None => Seq::empty(),
    }
}

/// The lab line and a blank line, where a lab is given.
pub open spec fn lab_part(c: CaptionArgs) -> Seq<char> {
    match c.lab {
        Some(l) => "🧪 "@ + l@ + "\n\n"@,
        None => Seq::empty(),
    }
}

/// The hashtags, where film, film type and format are all given.
pub open spec fn tags_part(c: CaptionArgs) -> Seq<char> {
    match (c.film, c.film_type, c.format) {
        (Some(f), Some(t), Some(fm)) => hashtags(f@, t, c.camera@, fm@),
        _ => Seq::empty(),
    }
}

/// The head of the caption: title, blank line, camera line.
pub open spec fn head_part(c: CaptionArgs) -> Seq<char> {
    title_part(c) + "\n\n"@ + "📸 "@ + c.camera@ + "\n"@
}

/// The whole caption.
pub open spec fn caption_of(c: CaptionArgs) -> Seq<char> {
    head_part(c) + film_part(c) + lab_part(c) + tags_part(c)
}

/// Adds one piece to the accumulation: an aside is skipped, otherwise the
/// piece, without a leading `@`, is appended to `current` and a copy of
/// `current` to `result`.
fn push_piece(piece: &str, current: &mut String, result: &mut Vec<String>)
    ensures
        is_aside(piece@) ==> final(current)@ == old(current)@ && final(result)@ == old(result)@,
        !is_aside(piece@) ==> final(current)@ == old(current)@ + stripped(piece@)
            && final(result)@.map_values(|s: String| s@) == old(result)@.map_values(|s: String| s@).push(
            final(current)@,
        ),
{
    let n = piece.unicode_len();
    if n > 0 && piece.get_char(0) == '(' {
        return;
    }
    let from: usize = if n > 0 && piece.get_char(0) == '@' {
        1
    } else {
        0
    };
    current.append(piece.substring_char(from, n));
    let ghost before = result@;
    result.push(current.clone());
    assert(result@.map_values(|s: String| s@) =~= before.map_values(|s: String| s@).push(current@));
}

/// One more piece extends the accumulation as `push_piece` does.
proof fn lemma_accumulate_step(done: Seq<Seq<char>>, piece: Seq<char>)
    ensures
        is_aside(piece) ==> kept(done.push(piece)) == kept(done),
        !is_aside(piece) ==> joined(kept(done.push(piece))) == joined(kept(done)) + stripped(piece)
            && running_joins(kept(done.push(piece))) == running_joins(kept(done)).push(
            joined(kept(done.push(piece))),
        ),
{
    let next = done.push(piece);
    let k = kept(done);
    assert(next.drop_last() =~= done);
    if !is_aside(piece) {
        assert(kept(next) == k.push(stripped(piece)));
        assert(k.push(stripped(piece)).drop_last() =~= k);
    }
}

/// The growing prefixes of `input` cut at `separator`: pieces that open with
/// `(` are skipped, a leading `@` is dropped, and each kept piece is appended
/// to what came before.
pub fn accumulate_slices(input: &str, separator: char) -> (r: Vec<String>)
    ensures
        r@.map_values(|s: String| s@) == accumulated(input@, separator),
{
    let n = input.unicode_len();
    let mut result: Vec<String> = Vec::new();
    let mut current = String::new();
    let mut start: usize = 0;
    let mut i: usize = 0;
    let ghost mut done: Seq<Seq<char>> = Seq::empty();
    assert(input@.take(0) =~= Seq::<char>::empty());
    assert(input@.subrange(0, 0) =~= Seq::<char>::empty());
    assert(result@.map_values(|s: String| s@) =~= Seq::<Seq<char>>::empty());
    while i < n
        invariant
            n == input@.len(),
            start <= i <= n,
            split_on(input@.take(i as int), separator) == done.push(input@.subrange(start as int, i as int)),
            result@.map_values(|s: String| s@) == running_joins(kept(done)),
            current@ == joined(kept(done)),
        decreases n - i,
    {
        let c = input.get_char(i);
        let ghost prefix = input@.take(i + 1);
        assert(prefix.drop_last() =~= input@.take(i as int));
        if c == separator {
            let piece = input.substring_char(start, i);
            push_piece(piece, &mut current, &mut result);
            proof {
                lemma_accumulate_step(done, piece@);
                done = done.push(piece@);
                assert(input@.subrange(i + 1, i + 1) =~= Seq::<char>::empty());
            }
            start = i + 1;
        } else {
            assert(input@.subrange(start as int, i + 1) =~= input@.subrange(start as int, i as int).push(c));
        }
        i = i + 1;
    }
    let piece = input.substring_char(start, n);
    push_piece(piece, &mut current, &mut result);
    proof {
        lemma_accumulate_step(done, piece@);
        assert(input@.take(n as int) =~= input@);
    }
    result
}

/// Appends each part as a hashtag after a space.
fn append_tags(text: &mut String, parts: &Vec<String>)
    ensures
        final(text)@ == old(text)@ + tag_list(parts@.map_values(|s: String| s@)),
{
    let ghost start = text@;
    let ghost views = parts@.map_values(|s: String| s@);
    let mut j: usize = 0;
    assert(views.take(0) =~= Seq::<Seq<char>>::empty());
    while j < parts.len()
        invariant
            views == parts@.map_values(|s: String| s@),
            j <= parts.len(),
            text@ == start + tag_list(views.take(j as int)),
        decreases parts.len() - j,
    {
        text.append(" #");
        text.append(parts[j].as_str());
        proof {
            assert(views.take(j + 1).drop_last() =~= views.take(j as int));
            assert(text@ =~= start + tag_list(views.take(j + 1)));
        }
        j = j + 1;
    }
    assert(views.take(parts.len() as int) =~= views);
}

/// The hashtag line for a photograph: the film type's tags (and the
/// Lomography tag for Lomography film), the format as `#format #formatfilm`,
/// then the accumulated words of the film and of the camera.
pub fn hashtags_by_film(film: &str, film_type: &FilmType, camera: &str, format: &str) -> (r: String)
    ensures
        r@ == hashtags(film@, *film_type, camera@, format@),
{
    let mut tags = String::new();
    match film_type {
        FilmType::Color | FilmType::LomographyColor => tags.append(COLOR_FILM_TAGS),
        FilmType::BlackAndWhite | FilmType::LomographyBlackAndWhite => tags.append(BLACK_AND_WHITE_FILM_TAGS),
    }
    match film_type {
        FilmType::LomographyColor | FilmType::LomographyBlackAndWhite => tags.append(LOMOGRAPHY_TAG),
        _ => {},
    }
    tags.append(" #");
    tags.append(format);
    tags.append(" #");
    tags.append(format);
    tags.append("film");
    let film_parts = accumulate_slices(film, ' ');
    append_tags(&mut tags, &film_parts);
    let camera_parts = accumulate_slices(camera, ' ');
    append_tags(&mut tags, &camera_parts);
    tags
}

/// The caption: the title (or `.`), the camera, the film and the lab lines
/// where given, then the hashtags when film, film type and format are all
/// given.
pub fn caption_text(caption: &CaptionArgs) -> (r: String)
    ensures
        r@ == caption_of(*caption),
{
    let mut text = String::new();
    match &caption.title {
        Some(t) => text.append(t.as_str()),
        None => text.append("."),
    }
    text.append("\n\n");
    text.append("📸 ");
    text.append(caption.camera.as_str());
    text.append("\n");
    let ghost head = text@;
    assert(head =~= head_part(*caption));
    match &caption.film {
        Some(f) => {
            text.append("🎞️ ");
            text.append(f.as_str());
            text.append("\n");
        },
        None => {},
    }
    let ghost with_film = text@;
    assert(with_film =~= head + film_part(*caption));
    match &caption.lab {
        Some(l) => {
            text.append("🧪 ");
            text.append(l.as_str());
            text.append("\n\n");
        },
        None => {},
    }
    let ghost with_lab = text@;
    assert(with_lab =~= with_film + lab_part(*caption));
    match (&caption.film, &caption.film_type, &caption.format) {
        (Some(f), Some(t), Some(fm)) => {
            let tags = hashtags_by_film(f.as_str(), t, caption.camera.as_str(), fm.as_str());
            text.append(tags.as_str());
        },
        _ => {},
    }
    assert(text@ =~= caption_of(*caption));
    text
}

} // verus!
