//! An indentation-aware text writer. Indentation is written at the start of each line
//! that receives text; empty lines stay empty.
use vstd::prelude::*;

verus! {

/// The unit of indentation: a tab, or a number of spaces.
#[derive(Debug, Clone, Copy)]
pub enum IndentConfig {
    Tab,
    Space(usize),
}

/// Model of an [`IndentedWriter`]: the text written so far, the current indentation,
/// the indentation unit, and whether the next character starts a line.
#[verifier::ext_equal]
pub struct WriterState {
    pub text: Seq<char>,
    pub indentation: Seq<char>,
    pub unit: Seq<char>,
    pub at_line_start: bool,
}

/// The indentation unit of a configuration.
pub open spec fn unit_of(config: IndentConfig) -> Seq<char> {
    match config {
        IndentConfig::Tab => seq!['\t'],
        IndentConfig::Space(n) => Seq::new(n as nat, |i: int| ' '),
    }
}

/// Writes one character: a newline ends the line; any other character is preceded by the
/// indentation when it starts a line.
pub open spec fn put_char(w: WriterState, c: char) -> WriterState {
    if c == '\n' {
        WriterState { text: w.text.push('\n'), indentation: w.indentation, unit: w.unit, at_line_start: true }
    } else if w.at_line_start {
        WriterState { text: (w.text + w.indentation).push(c), indentation: w.indentation, unit: w.unit, at_line_start: false }
    } else {
        WriterState { text: w.text.push(c), indentation: w.indentation, unit: w.unit, at_line_start: false }
    }
}

/// Writes a sequence of characters.
pub open spec fn put_str(w: WriterState, s: Seq<char>) -> WriterState
    decreases s.len(),
{
    if s.len() == 0 {
        w
    } else {
        put_char(put_str(w, s.drop_last()), s.last())
    }
}

/// Writes a line: the characters, then a newline.
pub open spec fn put_line(w: WriterState, s: Seq<char>) -> WriterState {
    put_str(w, s.push('\n'))
}

/// Ends the current line.
pub open spec fn put_newline(w: WriterState) -> WriterState {
    put_char(w, '\n')
}

/// One more level of indentation.
pub open spec fn indented(w: WriterState) -> WriterState {
    WriterState { text: w.text, indentation: w.indentation + w.unit, unit: w.unit, at_line_start: w.at_line_start }
}

/// One level of indentation less (none below zero).
pub open spec fn unindented(w: WriterState) -> WriterState {
    WriterState {
        text: w.text,
        indentation: if w.indentation.len() >= w.unit.len() {
            w.indentation.take(w.indentation.len() - w.unit.len())
        } else {
            Seq::empty()
        },
        unit: w.unit,
        at_line_start: w.at_line_start,
    }
}

/// Opens a block: `{` ends the line and the indentation grows.
pub open spec fn block_opened(w: WriterState) -> WriterState {
    indented(put_line(w, seq!['{']))
}

/// Closes a block: the indentation shrinks and `}` ends the line.
pub open spec fn block_closed(w: WriterState) -> WriterState {
    put_line(unindented(w), seq!['}'])
}

pub broadcast proof fn lemma_put_str_concat(w: WriterState, a: Seq<char>, b: Seq<char>)
    ensures
        #[trigger] put_str(w, a + b) == put_str(put_str(w, a), b),
    decreases b.len(),
{
    if b.len() == 0 {
        assert(a + b =~= a);
    } else {
        lemma_put_str_concat(w, a, b.drop_last());
        assert((a + b).drop_last() =~= a + b.drop_last());
    }
}

/// Writing never changes the indentation or its unit.
pub broadcast proof fn lemma_put_str_keeps_indentation(w: WriterState, s: Seq<char>)
    ensures
        #[trigger] put_str(w, s).indentation == w.indentation,
        put_str(w, s).unit == w.unit,
    decreases s.len(),
{
    if s.len() > 0 {
        lemma_put_str_keeps_indentation(w, s.drop_last());
    }
}

/// Whether `b` has the indentation, and the unit of indentation, of `a`.
pub open spec fn same_indentation(a: WriterState, b: WriterState) -> bool {
    a.indentation == b.indentation && a.unit == b.unit
}

/// Writing a line never changes the indentation.
pub broadcast proof fn lemma_put_line_keeps_indentation(w: WriterState, s: Seq<char>)
    ensures
        same_indentation(w, #[trigger] put_line(w, s)),
{
    lemma_put_str_keeps_indentation(w, s.push('\n'));
}

/// Writing a string never changes the indentation.
pub broadcast proof fn lemma_put_str_same_indentation(w: WriterState, s: Seq<char>)
    ensures
        same_indentation(w, #[trigger] put_str(w, s)),
{
    lemma_put_str_keeps_indentation(w, s);
}

/// Ending a line never changes the indentation.
pub broadcast proof fn lemma_put_newline_keeps_indentation(w: WriterState)
    ensures
        same_indentation(w, #[trigger] put_newline(w)),
{
}

/// One level deeper starts with the indentation it deepens.
pub broadcast proof fn lemma_indented_prefix(w: WriterState)
    ensures
        (#[trigger] indented(w)).indentation.take(w.indentation.len() as int) == w.indentation,
        indented(w).indentation.len() == w.indentation.len() + w.unit.len(),
        indented(w).unit == w.unit,
{
    assert((w.indentation + w.unit).take(w.indentation.len() as int) =~= w.indentation);
}

/// Going one level back from the indentation one level deeper than `w` gives the
/// indentation of `w`.
pub broadcast proof fn lemma_unindented_after(w: WriterState, x: WriterState)
    ensures
        (x.indentation == (#[trigger] indented(w)).indentation && x.unit == w.unit) ==> same_indentation(
            w,
            #[trigger] unindented(x),
        ),
{
    assert((w.indentation + w.unit).take(w.indentation.len() as int) =~= w.indentation);
}

pub proof fn lemma_put_str_single(w: WriterState, c: char)
    ensures
        put_str(w, seq![c]) == put_char(w, c),
{
    assert(seq![c].drop_last() =~= Seq::<char>::empty());
    assert(put_str(w, Seq::<char>::empty()) == w);
    assert(seq![c].last() == c);
}

/// Writing characters without a newline appends them, preceded by the indentation if they
/// start a line.
pub proof fn lemma_put_segment(w: WriterState, s: Seq<char>)
    requires
        s.len() > 0,
        !s.contains('\n'),
    ensures
        put_str(w, s) == (WriterState {
            text: (if w.at_line_start { w.text + w.indentation } else { w.text }) + s,
            indentation: w.indentation,
            unit: w.unit,
            at_line_start: false,
        }),
    decreases s.len(),
{
    let base = if w.at_line_start { w.text + w.indentation } else { w.text };
    let c = s.last();
    assert(c == s[s.len() - 1]);
    assert(c != '\n');
    let t = s.drop_last();
    if s.len() == 1 {
        assert(t =~= Seq::<char>::empty());
        assert(put_str(w, t) == w);
        assert(put_str(w, s) == put_char(w, c));
        assert(base.push(c) =~= base + s);
    } else {
        assert(!t.contains('\n')) by {
            if t.contains('\n') {
                let k = choose|k: int| 0 <= k < t.len() && t[k] == '\n';
                assert(s[k] == '\n');
            }
        }
        lemma_put_segment(w, t);
        assert(put_str(w, s) == put_char(put_str(w, t), c));
        assert((base + t).push(c) =~= base + s);
    }
}

/// Writing a non-empty line without a newline at the start of a line appends the
/// indentation, the line and a newline.
pub proof fn lemma_put_line_at_start(w: WriterState, s: Seq<char>)
    requires
        w.at_line_start,
        s.len() > 0,
        !s.contains('\n'),
    ensures
        put_line(w, s) == (WriterState {
            text: w.text + w.indentation + s + seq!['\n'],
            indentation: w.indentation,
            unit: w.unit,
            at_line_start: true,
        }),
{
    lemma_put_segment(w, s);
    lemma_put_str_concat(w, s, seq!['\n']);
    lemma_put_str_single(put_str(w, s), '\n');
    assert(s + seq!['\n'] =~= s.push('\n'));
    assert((w.text + w.indentation + s).push('\n') =~= w.text + w.indentation + s + seq!['\n']);
}

/// A writer of indented text into memory.
pub struct IndentedWriter {
    out: String,
    indentation: String,
    unit: String,
    at_line_start: bool,
}

impl View for IndentedWriter {
    type V = WriterState;

    closed spec fn view(&self) -> WriterState {
        WriterState {
            text: self.out@,
            indentation: self.indentation@,
            unit: self.unit@,
            at_line_start: self.at_line_start,
        }
    }
}

impl IndentedWriter {
    pub fn new(config: IndentConfig) -> (w: IndentedWriter)
        ensures
            w@ == (WriterState {
                text: Seq::empty(),
                indentation: Seq::empty(),
                unit: unit_of(config),
                at_line_start: true,
            }),
    {
        let mut unit = String::new();
        match config {
            IndentConfig::Tab => {
                unit.append("\t");
                proof {
                    reveal_strlit("\t");
                }
                assert(unit@ =~= unit_of(config));
            },
            IndentConfig::Space(n) => {
                let mut i: usize = 0;
                proof {
                    reveal_strlit(" ");
                }
                while i < n
                    invariant
                        i <= n,
                        unit@ =~= Seq::new(i as nat, |j: int| ' '),
                        " "@ == seq![' '],
                    decreases n - i,
                {
                    unit.append(" ");
                    i = i + 1;
                }
            },
        }
        IndentedWriter { out: String::new(), indentation: String::new(), unit, at_line_start: true }
    }

    /// The text written so far.
    pub fn as_str(&self) -> (s: &str)
        ensures
            s@ == self@.text,
    {
        self.out.as_str()
    }

    /// The text written so far.
    pub fn into_string(self) -> (s: String)
        ensures
            s@ == self@.text,
    {
        self.out
    }

    fn write_segment(&mut self, s: &str)
        requires
            !s@.contains('\n'),
        ensures
            final(self)@ == put_str(old(self)@, s@),
    {
        proof {
            if s@.len() > 0 {
                lemma_put_segment(self@, s@);
            }
        }
        if s.unicode_len() > 0 {
            if self.at_line_start {
                self.out.append(self.indentation.as_str());
            }
            self.out.append(s);
            self.at_line_start = false;
        }
    }

    /// Writes text; each line that receives text is indented.
    pub fn write_str(&mut self, s: &str)
        ensures
            final(self)@ == put_str(old(self)@, s@),
    {
        let n = s.unicode_len();
        let mut start: usize = 0;
        let mut i: usize = 0;
        proof {
            reveal_strlit("\n");
            assert(s@.take(0) =~= Seq::<char>::empty());
        }
        while i < n
            invariant
                start <= i <= n,
                n == s@.len(),
                "\n"@ == seq!['\n'],
                self@ == put_str(old(self)@, s@.take(start as int)),
                forall|j: int| start <= j < i ==> s@[j] != '\n',
            decreases n - i,
        {
            let c = s.get_char(i);
            if c == '\n' {
                let seg = s.substring_char(start, i);
                assert(!seg@.contains('\n')) by {
                    if seg@.contains('\n') {
                        let k = choose|k: int| 0 <= k < seg@.len() && seg@[k] == '\n';
                        assert(s@[start + k] == '\n');
                    }
                }
                self.write_segment(seg);
                self.out.append("\n");
                self.at_line_start = true;
                proof {
                    lemma_put_str_concat(old(self)@, s@.take(start as int), seg@);
                    lemma_put_str_concat(old(self)@, s@.take(start as int) + seg@, seq!['\n']);
                    lemma_put_str_single(put_str(old(self)@, s@.take(start as int) + seg@), '\n');
                    assert(s@.take(start as int) + seg@ + seq!['\n'] =~= s@.take(i + 1));
                    assert(self@.text =~= put_str(old(self)@, s@.take(i + 1)).text);
                }
                start = i + 1;
            }
            i = i + 1;
        }
        let seg = s.substring_char(start, n);
        assert(!seg@.contains('\n')) by {
            if seg@.contains('\n') {
                let k = choose|k: int| 0 <= k < seg@.len() && seg@[k] == '\n';
                assert(s@[start + k] == '\n');
            }
        }
        self.write_segment(seg);
        proof {
            lemma_put_str_concat(old(self)@, s@.take(start as int), seg@);
            assert(s@.take(start as int) + seg@ =~= s@);
        }
    }

    /// Writes the characters of `s`.
    pub fn write_string(&mut self, s: &String)
        ensures
            final(self)@ == put_str(old(self)@, s@),
    {
        self.write_str(s.as_str());
    }

    /// Ends the current line.
    pub fn newline(&mut self)
        ensures
            final(self)@ == put_newline(old(self)@),
    {
        proof {
            reveal_strlit("\n");
        }
        self.out.append("\n");
        self.at_line_start = true;
        assert(self@.text =~= old(self)@.text.push('\n'));
    }

    /// Writes a line of text.
    pub fn write_line(&mut self, s: &str)
        ensures
            final(self)@ == put_line(old(self)@, s@),
    {
        self.write_str(s);
        self.newline();
        proof {
            lemma_put_str_concat(old(self)@, s@, seq!['\n']);
            lemma_put_str_single(put_str(old(self)@, s@), '\n');
            assert(s@ + seq!['\n'] =~= s@.push('\n'));
        }
    }

    /// Adds one level of indentation.
    pub fn indent(&mut self)
        ensures
            final(self)@ == indented(old(self)@),
    {
        self.indentation.append(self.unit.as_str());
    }

    /// Removes one level of indentation, if there is one.
    pub fn unindent(&mut self)
        ensures
            final(self)@ == unindented(old(self)@),
    {
        let len = self.indentation.unicode_len();
        let u = self.unit.unicode_len();
        if len >= u {
            let kept = self.indentation.as_str().substring_char(0, len - u);
            self.indentation = String::from_str(kept);
        } else {
            self.indentation = String::new();
        }
        assert(self@.indentation =~= unindented(old(self)@).indentation);
    }

    /// Writes `{`, ends the line, and indents.
    pub fn start_block(&mut self)
        ensures
            final(self)@ == block_opened(old(self)@),
    {
        proof {
            reveal_strlit("{");
            assert("{"@ =~= seq!['{']);
        }
        self.write_line("{");
        self.indent();
    }

    /// Unindents, then writes `}` and ends the line.
    pub fn end_block(&mut self)
        ensures
            final(self)@ == block_closed(old(self)@),
    {
        proof {
            reveal_strlit("}");
            assert("}"@ =~= seq!['}']);
        }
        self.unindent();
        self.write_line("}");
    }
}

/// The decimal digit for `d`.
pub open spec fn digit_char(d: nat) -> char {
    if d == 0 { '0' } else if d == 1 { '1' } else if d == 2 { '2' } else if d == 3 { '3' } else if d == 4 { '4' }
    else if d == 5 { '5' } else if d == 6 { '6' } else if d == 7 { '7' } else if d == 8 { '8' } else { '9' }
}

/// The decimal representation of `n`, without leading zeros.
pub open spec fn decimal(n: nat) -> Seq<char>
    decreases n,
{
    if n < 10 {
        seq![digit_char(n)]
    } else {
        decimal(n / 10).push(digit_char(n % 10))
    }
}

/// Appends the decimal representation of `n`.
pub fn append_decimal(s: &mut String, n: usize)
    ensures
        final(s)@ == old(s)@ + decimal(n as nat),
    decreases n,
{
    if n >= 10 {
        append_decimal(s, n / 10);
    }
    let d = n % 10;
    proof {
        reveal_strlit("0");
        reveal_strlit("1");
        reveal_strlit("2");
        reveal_strlit("3");
        reveal_strlit("4");
        reveal_strlit("5");
        reveal_strlit("6");
        reveal_strlit("7");
        reveal_strlit("8");
        reveal_strlit("9");
    }
    let digit = if d == 0 { "0" } else if d == 1 { "1" } else if d == 2 { "2" } else if d == 3 { "3" }
        else if d == 4 { "4" } else if d == 5 { "5" } else if d == 6 { "6" } else if d == 7 { "7" }
        else if d == 8 { "8" } else { "9" };
    s.append(digit);
    assert(digit@ == seq![digit_char(d as nat)]);
}

/// The decimal representation of `n`.
pub fn usize_to_string(n: usize) -> (s: String)
    ensures
        s@ == decimal(n as nat),
{
    let mut s = String::new();
    append_decimal(&mut s, n);
    assert(s@ =~= decimal(n as nat));
    s
}

/// Whether the text of `b` continues that of `a`: it starts with all of it.
pub open spec fn text_grows(a: WriterState, b: WriterState) -> bool {
    a.text.len() <= b.text.len() && b.text.subrange(0, a.text.len() as int) == a.text
}

pub proof fn lemma_text_grows_trans(a: WriterState, b: WriterState, c: WriterState)
    requires
        text_grows(a, b),
        text_grows(b, c),
    ensures
        text_grows(a, c),
{
    assert(c.text.subrange(0, a.text.len() as int) =~= c.text.subrange(0, b.text.len() as int).subrange(0, a.text.len() as int));
}

/// Writing only appends to the text.
pub broadcast proof fn lemma_put_str_grows(w: WriterState, s: Seq<char>)
    ensures
        text_grows(w, #[trigger] put_str(w, s)),
    decreases s.len(),
{
    if s.len() == 0 {
        assert(w.text.subrange(0, w.text.len() as int) =~= w.text);
    } else {
        lemma_put_str_grows(w, s.drop_last());
        let v = put_str(w, s.drop_last());
        let x = put_str(w, s);
        assert(x.text.subrange(0, v.text.len() as int) =~= v.text);
        lemma_text_grows_trans(w, v, x);
    }
}

/// A line written at the start of a line leaves the writer at the start of a line.
pub proof fn lemma_put_line_ends_line(w: WriterState, s: Seq<char>)
    ensures
        put_line(w, s).at_line_start,
{
    assert(s.push('\n').last() == '\n');
    assert(s.push('\n').drop_last() =~= s);
}

/// A decimal numeral is a non-empty line.
pub proof fn lemma_decimal_one_line(n: nat)
    ensures
        decimal(n).len() > 0,
        !decimal(n).contains('\n'),
    decreases n,
{
    if n >= 10 {
        lemma_decimal_one_line(n / 10);
        let d = decimal(n / 10);
        if decimal(n).contains('\n') {
            let k = choose|k: int| 0 <= k < decimal(n).len() && decimal(n)[k] == '\n';
            if k < d.len() {
                assert(d[k] == '\n');
            }
        }
    }
}

} // verus!
