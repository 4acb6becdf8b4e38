//! The built-in introduction, shown while no book is open.

use vstd::prelude::*;

use crate::text;

verus! {

/// One line of a book.
pub struct Line {
    pub text: String,
}

impl View for Line {
    type V = Seq<char>;

    open spec fn view(&self) -> Seq<char> {
        self.text@
    }
}

/// What the lines of a book say.
pub open spec fn line_texts(lines: Seq<Line>) -> Seq<Seq<char>> {
    lines.map_values(|line: Line| line@)
}

/// Splits a plain text into its lines.
pub fn txt_lines(source: &str) -> (res: Vec<Line>)
    ensures
        line_texts(res@) == text::lines_of(source@),
{
    let n: usize = source.unicode_len();
    let mut lines: Vec<Line> = Vec::new();
    let mut start: usize = 0;
    let mut i: usize = 0;
    let mut previous: char = ' ';
    proof {
        assert(source@.skip(0) =~= source@);
        assert(line_texts(lines@) + text::lines_of(source@.skip(0)) =~= text::lines_of(source@));
    }
    for c in it: source.chars()
        invariant
            n == source@.len(),
            it.seq() == source@,
            i == it.index(),
            start <= i <= n,
            i > start ==> previous == source@[i - 1],
            forall|j: int| start <= j < i ==> source@[j] != '\n',
            line_texts(lines@) + text::lines_of(source@.skip(start as int)) == text::lines_of(
                source@,
            ),
    {
        if c == '\n' {
            let ghost rest = source@.skip(start as int);
            let ghost before = lines@;
            let end: usize = if i > start && previous == '\r' {
                i - 1
            } else {
                i
            };
            let line = Line { text: source.substring_char(start, end).to_owned() };
            proof {
                text::lemma_first_feed_at(rest, i - start);
                assert(rest.take(i - start) =~= source@.subrange(start as int, i as int));
                assert(line@ =~= text::without_return(rest.take(i - start)));
                assert(rest.skip(i - start + 1) =~= source@.skip(i + 1));
            }
            lines.push(line);
            start = i + 1;
            proof {
                assert(line_texts(lines@) =~= line_texts(before).push(line@));
                assert(line_texts(lines@) + text::lines_of(source@.skip(start as int))
                    =~= line_texts(before) + text::lines_of(rest));
            }
        }
        previous = c;
        i = i + 1;
    }
    let ghost rest = source@.skip(start as int);
    proof {
        text::lemma_first_feed_at(rest, n - start);
    }
    if start < n {
        let ghost before = lines@;
        let line = Line { text: source.substring_char(start, n).to_owned() };
        lines.push(line);
        proof {
            assert(line@ =~= rest);
            assert(line_texts(lines@) =~= line_texts(before).push(line@));
            assert(line_texts(lines@) =~= line_texts(before) + text::lines_of(rest));
        }
    } else {
        proof {
            assert(text::lines_of(rest) =~= Seq::<Seq<char>>::empty());
            assert(line_texts(lines@) =~= line_texts(lines@) + text::lines_of(rest));
        }
    }
    lines
}

/// The introduction as a book.
pub struct ReadmeBook {
    lines: Vec<Line>,
}

impl ReadmeBook {
    /// What the lines of the book say, from first to last.
    pub closed spec fn content(&self) -> Seq<Seq<char>> {
        line_texts(self.lines@)
    }

    /// The book of a plain text: one line of the book for each line of it.
    pub fn new(text: &str) -> (res: Self)
        ensures
            res.content() == text::lines_of(text@),
    {
        ReadmeBook { lines: txt_lines(text) }
    }

    /// The lines of the book.
    pub fn lines(&self) -> (res: &Vec<Line>)
        ensures
            line_texts(res@) == self.content(),
    {
        &self.lines
    }
}

/// The name under which a container lists one of its books.
pub struct BookName {
    pub name: String,
    pub index: usize,
}

impl BookName {
    pub fn new(name: String, index: usize) -> (res: Self)
        ensures
            res.name@ == name@,
            res.index == index,
    {
        BookName { name, index }
    }
}

/// What a container hands out for one of its books.
pub enum BookContent {
    Buf(Vec<u8>),
}

/// The file name that stands for the introduction.
pub const README_TEXT_FILENAME: &'static str = "readme";

/// The container of the introduction. It lists one book and gives its text.
pub struct ReadmeContainer {
    book_names: Vec<BookName>,
    text: String,
}

impl ReadmeContainer {
    /// The text that the container was made with.
    pub closed spec fn source(&self) -> Seq<char> {
        self.text@
    }

    /// Whether `names` lists the introduction and nothing else.
    pub open spec fn lists_readme(names: Seq<BookName>) -> bool {
        &&& names.len() == 1
        &&& names[0].name@ == README_TEXT_FILENAME@
        &&& names[0].index == 0
    }

    #[verifier::type_invariant]
    closed spec fn well_formed(&self) -> bool {
        Self::lists_readme(self.book_names@)
    }

    pub fn new(text: &str) -> (res: Self)
        ensures
            res.source() == text@,
    {
        let mut book_names: Vec<BookName> = Vec::new();
        book_names.push(BookName::new(README_TEXT_FILENAME.to_owned(), 0));
        ReadmeContainer { book_names, text: text.to_owned() }
    }

    pub fn inner_book_names(&self) -> (res: &Vec<BookName>)
        ensures
            Self::lists_readme(res@),
    {
        proof {
            use_type_invariant(self);
        }
        &self.book_names
    }

    /// The UTF-8 encoding of the text, whichever book is asked for.
    pub fn book_content(&mut self, _inner_index: usize) -> (res: BookContent)
        ensures
            *final(self) == *old(self),
            res->Buf_0@ == vstd::utf8::encode_utf8(old(self).source()),
    {
        BookContent::Buf(self.text.as_str().as_bytes_vec())
    }
}

/// Decoding what the container hands out for its text gives that text back.
pub proof fn law_content_is_the_text(source: Seq<char>)
    ensures
        vstd::utf8::valid_utf8(vstd::utf8::encode_utf8(source)),
        vstd::utf8::decode_utf8(vstd::utf8::encode_utf8(source)) == source,
{
    vstd::utf8::encode_utf8_valid_utf8(source);
    vstd::utf8::encode_utf8_decode_utf8(source);
}

/// The introduction has the lines of its text: whatever stands up to a line feed
/// is a line, without the carriage return that may end it, and the lines of the
/// rest follow. What stands behind the last line feed is a line as it is.
pub proof fn law_introduction_is_read_line_by_line(
    source: &str,
    line: Seq<char>,
    rest: &str,
    lines: Vec<Line>,
    lines_of_rest: Vec<Line>,
)
    requires
        !line.contains('\n'),
        source@ == line + seq!['\n'] + rest@,
        call_ensures(txt_lines, (source,), lines),
        call_ensures(txt_lines, (rest,), lines_of_rest),
    ensures
        lines@.len() == lines_of_rest@.len() + 1,
        line.len() > 0 && line.last() == '\r' ==> lines@[0].text@ == line.drop_last(),
        !(line.len() > 0 && line.last() == '\r') ==> lines@[0].text@ == line,
        forall|i: int|
            0 <= i < lines_of_rest@.len() ==> (#[trigger] lines_of_rest@[i]).text@ == lines@[i
                + 1].text@,
        !rest@.contains('\n') && rest@.len() > 0 ==> lines@.len() == 2 && lines@[1].text@ == rest@,
        rest@.len() == 0 ==> lines@.len() == 1,
{
    text::law_lines_follow_one_another(line, rest@);
    let all = line_texts(lines@);
    let tail = line_texts(lines_of_rest@);
    assert(all.len() == lines@.len() && tail.len() == lines_of_rest@.len());
    assert(all[0] == lines@[0].text@);
    assert forall|i: int| 0 <= i < lines_of_rest@.len() implies (#[trigger] lines_of_rest@[i]).text@
        == lines@[i + 1].text@ by {
        assert(tail[i] == lines_of_rest@[i].text@);
        assert(all[i + 1] == lines@[i + 1].text@);
        assert(all.skip(1)[i] == all[i + 1]);
    }
    if !rest@.contains('\n') {
        text::law_last_line_needs_no_feed(rest@);
        if rest@.len() > 0 {
            assert(tail[0] == lines_of_rest@[0].text@);
        }
    }
}

/// The book of the introduction has the lines of its text, and its container
/// lists that one book, under the name of the introduction, and hands out the
/// text itself.
pub proof fn law_introduction_is_its_text(
    source: &str,
    book: ReadmeBook,
    shown: &Vec<Line>,
    split: Vec<Line>,
    made: ReadmeContainer,
    container: &mut ReadmeContainer,
    names: &Vec<BookName>,
    inner_index: usize,
    content: BookContent,
)
    requires
        call_ensures(ReadmeBook::new, (source,), book),
        call_ensures(ReadmeBook::lines, (&book,), shown),
        call_ensures(txt_lines, (source,), split),
        call_ensures(ReadmeContainer::new, (source,), made),
        call_ensures(ReadmeContainer::inner_book_names, (&made,), names),
        *old(container) == made,
        call_ensures(ReadmeContainer::book_content, (container, inner_index), content),
    ensures
        shown@.len() == split@.len(),
        forall|i: int| 0 <= i < split@.len() ==> (#[trigger] shown@[i]).text@ == split@[i].text@,
        names@.len() == 1,
        names@[0].name@ == "readme"@,
        names@[0].index == 0,
        content->Buf_0@ == vstd::utf8::encode_utf8(source@),
        vstd::utf8::decode_utf8(content->Buf_0@) == source@,
        *final(container) == made,
{
    law_content_is_the_text(source@);
    let a = line_texts(shown@);
    let b = line_texts(split@);
    assert(a == b);
    assert(a.len() == shown@.len() && b.len() == split@.len());
    assert forall|i: int| 0 <= i < split@.len() implies (#[trigger] shown@[i]).text@
        == split@[i].text@ by {
        assert(a[i] == shown@[i].text@);
        assert(b[i] == split@[i].text@);
    }
}

} // verus!
