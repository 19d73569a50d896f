//! The first pass over the source: it cuts the text into spans (dumplings,
//! sticks, line breaks and bare words), each with the place where it starts.
use crate::errors::{
    compile_errors_view, CompileError, CompileErrorKind, CompileErrorKindModel, CompileErrorModel,
};
use crate::text::{chars_of, string_of, white_space};
use vstd::prelude::*;

verus! {

/// What a span is.
#[derive(Debug, Clone, Copy, PartialEq, Eq)]
pub enum SpanKind {
    /// Text between round brackets, on one line.
    Dumpling,
    /// A line break.
    Newline,
    /// A run of characters outside brackets: a command word or its argument.
    NonDumpling,
    /// The marker of four dashes.
    Stick,
    /// The end of the source.
    Eof,
}

/// A piece of the source and the place where it starts.
#[derive(Debug, PartialEq)]
pub struct SpanToken {
    pub kind: SpanKind,
    pub text: String,
    pub line: usize,
    pub column: usize,
}

/// The mathematical content of a [`SpanToken`].
pub struct SpanModel {
    pub kind: SpanKind,
    pub text: Seq<char>,
    pub line: nat,
    pub column: nat,
}

impl View for SpanToken {
    type V = SpanModel;

    open spec fn view(&self) -> SpanModel {
        SpanModel {
            kind: self.kind,
            text: self.text@,
            line: self.line as nat,
            column: self.column as nat,
        }
    }
}

impl SpanToken {
    pub fn new(kind: SpanKind, text: String, line: usize, column: usize) -> (r: Self)
        ensures
            r.kind == kind,
            r.text == text,
            r.line == line,
            r.column == column,
    {
        Self { kind, text, line, column }
    }
}

/// The views of a list of spans, in order.
pub open spec fn spans_view(spans: Seq<SpanToken>) -> Seq<SpanModel> {
    Seq::new(spans.len(), |i: int| spans[i]@)
}

/// A place in the source: line and column, both counted from 1.
#[derive(Debug, Clone, Copy, PartialEq, Eq)]
pub struct Position {
    pub line: usize,
    pub column: usize,
}

impl Position {
    pub fn new(line: usize, column: usize) -> (r: Self)
        ensures
            r.line == line,
            r.column == column,
    {
        Self { line, column }
    }
}

/// How far the scanner has come: the index of the next character, and the
/// line and column where that character stands.
pub struct Cursor {
    pub at: nat,
    pub line: nat,
    pub column: nat,
}

/// The cursor at the start of a source.
pub open spec fn origin() -> Cursor {
    Cursor { at: 0, line: 1, column: 1 }
}

/// The cursor after the character at hand: at the start of the next line
/// after a line break, one column further after any other character.
pub open spec fn advanced(src: Seq<char>, c: Cursor) -> Cursor {
    if src[c.at as int] == '\n' {
        Cursor { at: c.at + 1, line: c.line + 1, column: 1 }
    } else {
        Cursor { at: c.at + 1, line: c.line, column: c.column + 1 }
    }
}

/// The cursor after all the characters from `c` up to index `to`.
pub open spec fn moved(src: Seq<char>, c: Cursor, to: nat) -> Cursor
    decreases to,
{
    if to <= c.at {
        c
    } else {
        advanced(src, moved(src, c, (to - 1) as nat))
    }
}

/// Whether the scanner passes over `c` between spans: white space other
/// than a line break.
pub open spec fn is_blank(c: char) -> bool {
    white_space(c) && c != '\n'
}

/// The index of the first character from `from` on that is not passed over.
pub open spec fn blanks_end(src: Seq<char>, from: nat) -> nat
    decreases src.len() - from,
{
    if from < src.len() && is_blank(src[from as int]) {
        blanks_end(src, from + 1)
    } else {
        from
    }
}

/// The index of the first closing bracket or line break from `from` on, or
/// the length of the source where there is none.
pub open spec fn dumpling_end(src: Seq<char>, from: nat) -> nat
    decreases src.len() - from,
{
    if from < src.len() && src[from as int] != '\n' && src[from as int] != ')' {
        dumpling_end(src, from + 1)
    } else {
        from
    }
}

/// Whether a bare word ends before `c`: at white space, an opening bracket
/// or a dash.
pub open spec fn ends_word(c: char) -> bool {
    c == '(' || c == '-' || white_space(c)
}

/// The index of the first character from `from` on that ends a bare word, or
/// the length of the source where there is none.
pub open spec fn word_end(src: Seq<char>, from: nat) -> nat
    decreases src.len() - from,
{
    if from < src.len() && !ends_word(src[from as int]) {
        word_end(src, from + 1)
    } else {
        from
    }
}

/// Whether `word` stands in `src` at index `at`.
pub open spec fn stands_at(src: Seq<char>, at: nat, word: Seq<char>) -> bool {
    at + word.len() <= src.len() && src.subrange(at as int, (at + word.len()) as int) == word
}

/// The span, or the error, that the scanner finds next, and the cursor
/// after it.
pub struct Scan {
    pub result: Result<SpanModel, CompileErrorModel>,
    pub after: Cursor,
}

/// The span of kind `kind` and text `text` that starts at `c`.
pub open spec fn span_at(kind: SpanKind, text: Seq<char>, c: Cursor) -> Result<
    SpanModel,
    CompileErrorModel,
> {
    Ok(SpanModel { kind, text, line: c.line, column: c.column })
}

/// The error of kind `kind` for what starts at `c`.
pub open spec fn error_at(kind: CompileErrorKindModel, c: Cursor) -> Result<
    SpanModel,
    CompileErrorModel,
> {
    Err(CompileErrorModel { kind, line: c.line, column: c.column })
}

/// What the scanner finds at cursor `start`, where no blank stands. It
/// reads, by the first character: a line break; a dumpling, which must close
/// on its line; a stick, which is exactly four dashes, where a dash that
/// starts none is an error of its own; or a bare word. At the end of the
/// source it yields the end-of-file span.
pub open spec fn span_from(src: Seq<char>, start: Cursor) -> Scan {
    if start.at >= src.len() {
        Scan { result: span_at(SpanKind::Eof, Seq::empty(), start), after: start }
    } else if src[start.at as int] == '\n' {
        Scan {
            result: span_at(SpanKind::Newline, Seq::empty(), start),
            after: advanced(src, start),
        }
    } else if src[start.at as int] == '(' {
        let end = dumpling_end(src, start.at);
        if end >= src.len() {
            Scan {
                result: error_at(CompileErrorKindModel::UnterminatedDumpling, start),
                after: moved(src, start, end),
            }
        } else if src[end as int] == '\n' {
            Scan {
                result: error_at(CompileErrorKindModel::MultilineDumpling, start),
                after: moved(src, start, end),
            }
        } else {
            Scan {
                result: span_at(
                    SpanKind::Dumpling,
                    src.subrange(start.at as int + 1, end as int),
                    start,
                ),
                after: moved(src, start, end + 1),
            }
        }
    } else if src[start.at as int] == '-' {
        if stands_at(src, start.at, "----"@) {
            Scan {
                result: span_at(SpanKind::Stick, "----"@, start),
                after: moved(src, start, start.at + "----"@.len()),
            }
        } else {
            Scan {
                result: error_at(CompileErrorKindModel::InvalidToken("-"@), start),
                after: advanced(src, start),
            }
        }
    } else {
        let end = word_end(src, start.at);
        Scan {
            result: span_at(SpanKind::NonDumpling, src.subrange(start.at as int, end as int), start),
            after: moved(src, start, end),
        }
    }
}

/// What the scanner finds next from cursor `c` on: it passes over blanks
/// and reads what stands there.
pub open spec fn next_span(src: Seq<char>, c: Cursor) -> Scan {
    span_from(src, moved(src, c, blanks_end(src, c.at)))
}

/// All that a scan finds: the spans before the end of the source, the
/// errors, and the cursor at the end.
pub struct Scanned {
    pub spans: Seq<SpanModel>,
    pub errors: Seq<CompileErrorModel>,
    pub end: Cursor,
}

/// The scan of `src` from cursor `c` on: span after span, and error after
/// error, up to the end of the source.
pub open spec fn scan_from(src: Seq<char>, c: Cursor) -> Scanned
    decreases src.len() - c.at,
{
    let found = next_span(src, c);
    if found.after.at <= c.at || found.after.at > src.len() || (found.result matches Ok(span)
        && span.kind == SpanKind::Eof) {
        Scanned { spans: Seq::empty(), errors: Seq::empty(), end: found.after }
    } else {
        let rest = scan_from(src, found.after);
        match found.result {
            Ok(span) => Scanned { spans: seq![span] + rest.spans, ..rest },
            Err(error) => Scanned { errors: seq![error] + rest.errors, ..rest },
        }
    }
}

/// Whether `r`, with the scanner left at `after`, is what `expected` says.
pub open spec fn scanned(
    r: Result<SpanToken, CompileError>,
    after: Cursor,
    expected: Scan,
) -> bool {
    after == expected.after && match expected.result {
        Ok(span) => r matches Ok(x) && x@ == span,
        Err(error) => r matches Err(x) && x@ == error,
    }
}

/// The scanner: the source and the place that it has come to.
pub struct SpanTokenizer {
    source: Vec<char>,
    start_pos: Position,
    current_pos: Position,
    start: usize,
    current: usize,
}

impl SpanTokenizer {
    /// The source that is scanned.
    pub closed spec fn source(&self) -> Seq<char> {
        self.source@
    }

    /// The place that the scanner has come to.
    pub closed spec fn cursor(&self) -> Cursor {
        Cursor {
            at: self.current as nat,
            line: self.current_pos.line as nat,
            column: self.current_pos.column as nat,
        }
    }

    /// The scanner stands within its source, and line and column count what
    /// lies behind it.
    pub closed spec fn wf(&self) -> bool {
        &&& self.current <= self.source@.len() < usize::MAX
        &&& 1 <= self.current_pos.line <= self.current + 1
        &&& 1 <= self.current_pos.column <= self.current + 1
    }

    /// A scanner at the start of `source`.
    pub fn new(source: &str) -> (r: Self)
        requires
            source@.len() < usize::MAX,
        ensures
            r.wf(),
            r.source() == source@,
            r.cursor() == origin(),
    {
        Self {
            source: chars_of(source),
            start_pos: Position::new(1, 1),
            current_pos: Position::new(1, 1),
            start: 0,
            current: 0,
        }
    }

    /// The next span of the source, or the error found in its place.
    pub fn consume_span(&mut self) -> (r: Result<SpanToken, CompileError>)
        requires
            old(self).wf(),
        ensures
            final(self).wf(),
            final(self).source() == old(self).source(),
            scanned(r, final(self).cursor(), next_span(old(self).source(), old(self).cursor())),
            final(self).cursor().at >= old(self).cursor().at,
            !(r matches Ok(span) && span.kind == SpanKind::Eof) ==> final(self).cursor().at > old(
                self,
            ).cursor().at,
    {
        self.skip_whitespace();
        self.start = self.current;
        self.start_pos = self.current_pos;
        match self.first() {
            Some(c) => {
                if c == '\n' {
                    self.advance();
                    Ok(
                        SpanToken::new(
                            SpanKind::Newline,
                            String::new(),
                            self.start_pos.line,
                            self.start_pos.column,
                        ),
                    )
                } else if c == '(' {
                    self.consume_dumpling()
                } else if c == '-' {
                    self.consume_stick()
                } else {
                    self.consume_misc()
                }
            },
            None => Ok(
                SpanToken::new(
                    SpanKind::Eof,
                    String::new(),
                    self.start_pos.line,
                    self.start_pos.column,
                ),
            ),
        }
    }

    fn first(&self) -> (r: Option<char>)
        requires
            self.wf(),
        ensures
            r == if self.current < self.source@.len() {
                Some(self.source@[self.current as int])
            } else {
                None
            },
    {
        if self.current < self.source.len() {
            Some(self.source[self.current])
        } else {
            None
        }
    }

    fn matches_string(&self, string: &str) -> (r: bool)
        requires
            self.wf(),
        ensures
            r == stands_at(self.source@, self.current as nat, string@),
    {
        let n = string.unicode_len();
        if n > self.source.len() - self.current {
            return false;
        }
        let mut i: usize = 0;
        while i < n
            invariant
                self.wf(),
                n == string@.len(),
                i <= n <= self.source@.len() - self.current,
                self.source@.subrange(self.current as int, self.current + i) == string@.take(
                    i as int,
                ),
            decreases n - i,
        {
            if self.source[self.current + i] != string.get_char(i) {
                assert(self.source@.subrange(self.current as int, self.current + n)[i as int]
                    != string@[i as int]);
                return false;
            }
            assert(self.source@.subrange(self.current as int, self.current + i + 1)
                =~= string@.take(i + 1));
            i += 1;
        }
        assert(string@.take(n as int) =~= string@);
        true
    }

    fn advance(&mut self) -> (r: Option<char>)
        requires
            old(self).wf(),
        ensures
            final(self).wf(),
            final(self).source@ == old(self).source@,
            final(self).start == old(self).start,
            final(self).start_pos == old(self).start_pos,
            old(self).current < old(self).source@.len() ==> r == Some(
                old(self).source@[old(self).current as int],
            ) && final(self).cursor() == advanced(old(self).source@, old(self).cursor()),
            old(self).current >= old(self).source@.len() ==> r.is_none() && final(self).cursor()
                == old(self).cursor(),
    {
        if self.current >= self.source.len() {
            return None;
        }
        let c = self.source[self.current];
        self.current += 1;
        self.current_pos.column += 1;
        if c == '\n' {
            self.newline();
        }
        Some(c)
    }

    fn newline(&mut self)
        requires
            old(self).current_pos.line < usize::MAX,
        ensures
            final(self).source == old(self).source,
            final(self).start == old(self).start,
            final(self).start_pos == old(self).start_pos,
            final(self).current == old(self).current,
            final(self).current_pos.line == old(self).current_pos.line + 1,
            final(self).current_pos.column == 1,
    {
        self.current_pos.line += 1;
        self.current_pos.column = 1;
    }

    fn skip_whitespace(&mut self)
        requires
            old(self).wf(),
        ensures
            final(self).wf(),
            final(self).source@ == old(self).source@,
            final(self).cursor() == moved(
                old(self).source@,
                old(self).cursor(),
                blanks_end(old(self).source@, old(self).current as nat),
            ),
            final(self).current == blanks_end(old(self).source@, old(self).current as nat),
            final(self).current < final(self).source@.len() ==> !is_blank(
                final(self).source@[final(self).current as int],
            ),
    {
        loop
            invariant
                self.wf(),
                self.source@ == old(self).source@,
                old(self).current <= self.current,
                blanks_end(self.source@, old(self).current as nat) == blanks_end(
                    self.source@,
                    self.current as nat,
                ),
                self.cursor() == moved(self.source@, old(self).cursor(), self.current as nat),
            ensures
                self.current == blanks_end(self.source@, old(self).current as nat),
                self.current < self.source@.len() ==> !is_blank(self.source@[self.current as int]),
            decreases self.source@.len() - self.current,
        {
            match self.first() {
                Some(c) => {
                    if c == '\n' || !c.is_whitespace() {
                        break;
                    }
                    self.advance();
                },
                None => {
                    break;
                },
            }
        }
    }

    fn consume_dumpling(&mut self) -> (r: Result<SpanToken, CompileError>)
        requires
            old(self).wf(),
            old(self).start == old(self).current,
            old(self).start_pos == old(self).current_pos,
            old(self).current < old(self).source@.len(),
            old(self).source@[old(self).current as int] == '(',
        ensures
            final(self).wf(),
            final(self).source@ == old(self).source@,
            scanned(r, final(self).cursor(), span_from(old(self).source@, old(self).cursor())),
            final(self).current > old(self).current,
    {
        loop
            invariant
                self.wf(),
                self.source@ == old(self).source@,
                self.start == old(self).current,
                self.start_pos == old(self).current_pos,
                old(self).current < self.source@.len(),
                self.source@[old(self).current as int] == '(',
                old(self).current <= self.current,
                self.current == old(self).current ==> self.current < self.source@.len()
                    && self.source@[self.current as int] == '(',
                dumpling_end(self.source@, old(self).current as nat) == dumpling_end(
                    self.source@,
                    self.current as nat,
                ),
                self.cursor() == moved(self.source@, old(self).cursor(), self.current as nat),
            ensures
                self.current == dumpling_end(self.source@, old(self).current as nat),
                self.current > old(self).current,
                self.current < self.source@.len() ==> self.source@[self.current as int] == ')',
            decreases self.source@.len() - self.current,
        {
            match self.first() {
                Some(c) => {
                    if c == '\n' {
                        return Err(
                            CompileError::new(
                                CompileErrorKind::MultilineDumpling,
                                self.start_pos.line,
                                self.start_pos.column,
                            ),
                        );
                    }
                    if c == ')' {
                        break;
                    }
                    self.advance();
                },
                None => {
                    break;
                },
            }
        }
        match self.first() {
            Some(_) => {
                self.advance();
            },
            None => {
                return Err(
                    CompileError::new(
                        CompileErrorKind::UnterminatedDumpling,
                        self.start_pos.line,
                        self.start_pos.column,
                    ),
                );
            },
        }
        Ok(
            SpanToken::new(
                SpanKind::Dumpling,
                string_of(&self.source, self.start + 1, self.current - 1),
                self.start_pos.line,
                self.start_pos.column,
            ),
        )
    }

    fn consume_stick(&mut self) -> (r: Result<SpanToken, CompileError>)
        requires
            old(self).wf(),
            old(self).start == old(self).current,
            old(self).start_pos == old(self).current_pos,
            old(self).current < old(self).source@.len(),
            old(self).source@[old(self).current as int] == '-',
        ensures
            final(self).wf(),
            final(self).source@ == old(self).source@,
            scanned(r, final(self).cursor(), span_from(old(self).source@, old(self).cursor())),
            final(self).current > old(self).current,
    {
        proof {
            reveal_strlit("----");
        }
        if !self.matches_string("----") {
            self.advance();
            return Err(
                CompileError::new(
                    CompileErrorKind::InvalidToken(String::from_str("-")),
                    self.start_pos.line,
                    self.start_pos.column,
                ),
            );
        }
        self.advance();
        self.advance();
        self.advance();
        self.advance();
        proof {
            reveal_with_fuel(moved, 5);
        }
        Ok(
            SpanToken::new(
                SpanKind::Stick,
                String::from_str("----"),
                self.start_pos.line,
                self.start_pos.column,
            ),
        )
    }

    fn consume_misc(&mut self) -> (r: Result<SpanToken, CompileError>)
        requires
            old(self).wf(),
            old(self).start == old(self).current,
            old(self).start_pos == old(self).current_pos,
            old(self).current < old(self).source@.len(),
            old(self).source@[old(self).current as int] != '\n',
            old(self).source@[old(self).current as int] != '(',
            old(self).source@[old(self).current as int] != '-',
            !is_blank(old(self).source@[old(self).current as int]),
        ensures
            final(self).wf(),
            final(self).source@ == old(self).source@,
            scanned(r, final(self).cursor(), span_from(old(self).source@, old(self).cursor())),
            final(self).current > old(self).current,
    {
        loop
            invariant
                self.wf(),
                self.source@ == old(self).source@,
                self.start == old(self).current,
                self.start_pos == old(self).current_pos,
                old(self).current <= self.current,
                word_end(self.source@, old(self).current as nat) == word_end(
                    self.source@,
                    self.current as nat,
                ),
                self.current == old(self).current ==> self.current < self.source@.len()
                    && !ends_word(self.source@[self.current as int]),
                self.cursor() == moved(self.source@, old(self).cursor(), self.current as nat),
            ensures
                self.current == word_end(self.source@, old(self).current as nat),
                self.current > old(self).current,
            decreases self.source@.len() - self.current,
        {
            match self.first() {
                Some(c) => {
                    if c == '(' || c == '-' {
                        break;
                    }
                    if c.is_whitespace() {
                        break;
                    }
                    self.advance();
                },
                None => {
                    break;
                },
            }
        }
        Ok(
            SpanToken::new(
                SpanKind::NonDumpling,
                string_of(&self.source, self.start, self.current),
                self.start_pos.line,
                self.start_pos.column,
            ),
        )
    }
}

/// The end-of-file span at cursor `c`.
pub open spec fn eof_span(c: Cursor) -> SpanModel {
    SpanModel { kind: SpanKind::Eof, text: Seq::empty(), line: c.line, column: c.column }
}

/// Whether `r` is the outcome of a scan that found `all`: its errors where
/// there are any, else its spans with the end-of-file span after them.
pub open spec fn scan_outcome(r: Result<Vec<SpanToken>, Vec<CompileError>>, all: Scanned) -> bool {
    match r {
        Ok(spans) => all.errors.len() == 0 && spans_view(spans@) == all.spans.push(
            eof_span(all.end),
        ),
        Err(errors) => all.errors.len() > 0 && compile_errors_view(errors@) == all.errors,
    }
}

/// Cuts `source` into spans. Every error of the whole source is collected;
/// where there is one, the errors are returned and no span.
pub fn tokenize_into_spans(source: &str) -> (r: Result<Vec<SpanToken>, Vec<CompileError>>)
    requires
        source@.len() < usize::MAX,
    ensures
        scan_outcome(r, scan_from(source@, origin())),
{
    let mut tokenizer = SpanTokenizer::new(source);
    let mut spans: Vec<SpanToken> = Vec::new();
    let mut errors: Vec<CompileError> = Vec::new();
    let ghost all = scan_from(source@, origin());
    loop
        invariant_except_break
            all.spans == spans_view(spans@) + scan_from(source@, tokenizer.cursor()).spans,
            all.errors == compile_errors_view(errors@) + scan_from(
                source@,
                tokenizer.cursor(),
            ).errors,
            all.end == scan_from(source@, tokenizer.cursor()).end,
        invariant
            tokenizer.wf(),
            tokenizer.source() == source@,
            all == scan_from(source@, origin()),
        ensures
            all.errors == compile_errors_view(errors@),
            spans_view(spans@) == all.spans.push(eof_span(all.end)),
        decreases source@.len() - tokenizer.cursor().at,
    {
        let ghost before = tokenizer.cursor();
        let ghost rest = scan_from(source@, before);
        match tokenizer.consume_span() {
            Ok(span) => {
                let is_eof = match span.kind {
                    SpanKind::Eof => true,
                    _ => false,
                };
                if is_eof {
                    let ghost found = spans_view(spans@);
                    spans.push(span);
                    proof {
                        assert(rest.spans =~= Seq::<SpanModel>::empty());
                        assert(all.errors =~= compile_errors_view(errors@));
                        assert(spans_view(spans@) =~= all.spans.push(eof_span(all.end)));
                    }
                    break;
                }
                proof {
                    let later = scan_from(source@, tokenizer.cursor());
                    assert(rest.spans == seq![span@] + later.spans);
                    assert(spans_view(spans@.push(span)) + later.spans =~= spans_view(spans@)
                        + rest.spans);
                }
                spans.push(span);
            },
            Err(error) => {
                proof {
                    let later = scan_from(source@, tokenizer.cursor());
                    assert(rest.errors == seq![error@] + later.errors);
                    assert(compile_errors_view(errors@.push(error)) + later.errors
                        =~= compile_errors_view(errors@) + rest.errors);
                }
                errors.push(error);
            },
        }
    }
    if errors.len() > 0 {
        Err(errors)
    } else {
        Ok(spans)
    }
}

/// Moving a cursor forward to an index brings it to that index.
pub proof fn lemma_moved_at(src: Seq<char>, c: Cursor, to: nat)
    ensures
        moved(src, c, to).at == if to <= c.at {
            c.at
        } else {
            to
        },
    decreases to,
{
    if to > c.at {
        lemma_moved_at(src, c, (to - 1) as nat);
    }
}

/// The blanks from `from` on end within the source, at a character that is
/// no blank.
pub proof fn lemma_blanks_end(src: Seq<char>, from: nat)
    requires
        from <= src.len(),
    ensures
        from <= blanks_end(src, from) <= src.len(),
        blanks_end(src, from) < src.len() ==> !is_blank(src[blanks_end(src, from) as int]),
    decreases src.len() - from,
{
    if from < src.len() && is_blank(src[from as int]) {
        lemma_blanks_end(src, from + 1);
    }
}

/// A dumpling that starts at `from` ends within the source.
pub proof fn lemma_dumpling_end(src: Seq<char>, from: nat)
    requires
        from <= src.len(),
    ensures
        from <= dumpling_end(src, from) <= src.len(),
    decreases src.len() - from,
{
    if from < src.len() && src[from as int] != '\n' && src[from as int] != ')' {
        lemma_dumpling_end(src, from + 1);
    }
}

/// A bare word that starts at `from` ends within the source.
pub proof fn lemma_word_end(src: Seq<char>, from: nat)
    requires
        from <= src.len(),
    ensures
        from <= word_end(src, from) <= src.len(),
    decreases src.len() - from,
{
    if from < src.len() && !ends_word(src[from as int]) {
        lemma_word_end(src, from + 1);
    }
}

/// The scanner never stands still and never leaves the source: whatever it
/// finds before the end of the source, span or error, takes up at least one
/// character.
pub proof fn lemma_next_span_advances(src: Seq<char>, c: Cursor)
    requires
        c.at <= src.len(),
    ensures
        c.at <= next_span(src, c).after.at <= src.len(),
        !(next_span(src, c).result matches Ok(span) && span.kind == SpanKind::Eof) ==> next_span(
            src,
            c,
        ).after.at > c.at,
{
    reveal_strlit("----");
    lemma_blanks_end(src, c.at);
    let start = moved(src, c, blanks_end(src, c.at));
    lemma_moved_at(src, c, blanks_end(src, c.at));
    if start.at < src.len() {
        lemma_dumpling_end(src, start.at);
        lemma_word_end(src, start.at);
        lemma_moved_at(src, start, dumpling_end(src, start.at));
        lemma_moved_at(src, start, dumpling_end(src, start.at) + 1);
        lemma_moved_at(src, start, word_end(src, start.at));
        lemma_moved_at(src, start, start.at + 4);
        lemma_dumpling_end(src, start.at + 1);
        lemma_word_end(src, start.at + 1);
    }
}

/// A scan is the first thing found and then the scan of what comes after
/// it, up to the end-of-file span.
pub proof fn lemma_scan_unfolds(src: Seq<char>, c: Cursor)
    requires
        c.at <= src.len(),
    ensures
        scan_from(src, c) == (match next_span(src, c).result {
            Ok(span) => if span.kind == SpanKind::Eof {
                Scanned {
                    spans: Seq::empty(),
                    errors: Seq::empty(),
                    end: next_span(src, c).after,
                }
            } else {
                Scanned {
                    spans: seq![span] + scan_from(src, next_span(src, c).after).spans,
                    ..scan_from(src, next_span(src, c).after)
                }
            },
            Err(error) => Scanned {
                errors: seq![error] + scan_from(src, next_span(src, c).after).errors,
                ..scan_from(src, next_span(src, c).after)
            },
        }),
{
    lemma_next_span_advances(src, c);
}

} // verus!
