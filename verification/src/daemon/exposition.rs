//! The Prometheus text format, version 0.0.4, as a sequence of lines.
use vstd::prelude::*;
use vstd::string::*;

verus! {

/// The type that a `# TYPE` line gives a metric.
#[derive(Clone, Copy, Debug, PartialEq, Eq, Structural)]
pub enum MetricKind {
    Counter,
    Gauge,
}

impl MetricKind {
    pub open spec fn word(self) -> Seq<char> {
        match self {
            MetricKind::Counter => "counter"@,
            MetricKind::Gauge => "gauge"@,
        }
    }

    /// The word that stands for the type on a `# TYPE` line.
    pub fn name(self) -> (s: &'static str)
        ensures
            s@ == self.word(),
    {
        match self {
            MetricKind::Counter => "counter",
            MetricKind::Gauge => "gauge",
        }
    }
}

/// A label's name and value.
pub type Label = (Seq<char>, Seq<char>);

/// One line of an exposition.
pub enum Line {
    /// `# HELP <name> <help>`
    Help(Seq<char>, Seq<char>),
    /// `# TYPE <name> <kind>`
    Kind(Seq<char>, MetricKind),
    /// `<name>{<labels>} <value>`
    Sample(Seq<char>, Seq<Label>, Seq<char>),
}

/// `name="value"`
pub open spec fn label_text(l: Label) -> Seq<char> {
    l.0 + "=\""@ + l.1 + "\""@
}

/// Labels separated by commas.
pub open spec fn joined_labels(labels: Seq<Label>) -> Seq<char>
    decreases labels.len(),
{
    if labels.len() == 0 {
        Seq::empty()
    } else if labels.len() == 1 {
        label_text(labels[0])
    } else {
        joined_labels(labels.drop_last()) + ","@ + label_text(labels.last())
    }
}

/// The labels in braces, or nothing where there are none.
pub open spec fn labels_text(labels: Seq<Label>) -> Seq<char> {
    if labels.len() == 0 {
        Seq::empty()
    } else {
        "{"@ + joined_labels(labels) + "}"@
    }
}

/// The text of one line, its newline included.
pub open spec fn line_text(line: Line) -> Seq<char> {
    match line {
        Line::Help(name, help) => "# HELP "@ + name + " "@ + help + "\n"@,
        Line::Kind(name, kind) => "# TYPE "@ + name + " "@ + kind.word() + "\n"@,
        Line::Sample(name, labels, value) => name + labels_text(labels) + " "@ + value + "\n"@,
    }
}

/// The text of all the lines, in order.
pub open spec fn lines_text(lines: Seq<Line>) -> Seq<char>
    decreases lines.len(),
{
    if lines.len() == 0 {
        Seq::empty()
    } else {
        lines_text(lines.drop_last()) + line_text(lines.last())
    }
}

/// The text of two runs of lines is the text of the one followed by the text of the other.
pub proof fn lines_text_concat(a: Seq<Line>, b: Seq<Line>)
    ensures
        lines_text(a + b) == lines_text(a) + lines_text(b),
    decreases b.len(),
{
    if b.len() == 0 {
        assert(a + b =~= a);
        assert(lines_text(a + b) =~= lines_text(a) + lines_text(b));
    } else {
        assert((a + b).drop_last() =~= a + b.drop_last());
        lines_text_concat(a, b.drop_last());
        assert(lines_text(a + b) =~= lines_text(a) + lines_text(b));
    }
}

/// Concatenation of runs of lines is associative.
pub broadcast proof fn concat_assoc(a: Seq<Line>, b: Seq<Line>, c: Seq<Line>)
    ensures
        #[trigger] ((a + b) + c) == a + (b + c),
{
    assert((a + b) + c =~= a + (b + c));
}

/// The lines of `f(0)`, `f(1)` and so on, up to `n`.
pub open spec fn each(n: nat, f: spec_fn(int) -> Seq<Line>) -> Seq<Line>
    decreases n,
{
    if n == 0 {
        Seq::empty()
    } else {
        each((n - 1) as nat, f) + f(n - 1)
    }
}

/// The two lines that introduce a metric.
pub open spec fn head(name: Seq<char>, help: Seq<char>, kind: MetricKind) -> Seq<Line> {
    seq![Line::Help(name, help), Line::Kind(name, kind)]
}

/// A character that may stand in a metric name after the first.
pub open spec fn metric_char(c: char) -> bool {
    'a' <= c <= 'z' || 'A' <= c <= 'Z' || '0' <= c <= '9' || c == '_' || c == ':'
}

/// A character that may stand in a label name after the first.
pub open spec fn label_char(c: char) -> bool {
    metric_char(c) && c != ':'
}

pub open spec fn is_digit(c: char) -> bool {
    '0' <= c <= '9'
}

/// `[a-zA-Z_:][a-zA-Z0-9_:]*`
pub open spec fn valid_metric_name(s: Seq<char>) -> bool {
    &&& s.len() > 0
    &&& !is_digit(s[0])
    &&& forall|i: int| 0 <= i < s.len() ==> metric_char(#[trigger] s[i])
}

/// `[a-zA-Z_][a-zA-Z0-9_]*`
pub open spec fn valid_label_name(s: Seq<char>) -> bool {
    &&& s.len() > 0
    &&& !is_digit(s[0])
    &&& forall|i: int| 0 <= i < s.len() ==> label_char(#[trigger] s[i])
}

/// A character that needs no escape in a label value and separates nothing.
pub open spec fn plain_char(c: char) -> bool {
    label_char(c) || c == '-' || c == '.'
}

/// One word without quotes, backslashes or blanks.
pub open spec fn plain(s: Seq<char>) -> bool {
    &&& s.len() > 0
    &&& forall|i: int| 0 <= i < s.len() ==> plain_char(#[trigger] s[i])
}

pub open spec fn valid_labels(labels: Seq<Label>) -> bool {
    forall|i: int|
        0 <= i < labels.len() ==> valid_label_name(labels[i].0) && plain(
            (#[trigger] labels[i]).1,
        )
}

/// A help text without line breaks and backslashes.
#[verifier::opaque]
pub open spec fn needs_no_escape(s: Seq<char>) -> bool {
    forall|i: int| 0 <= i < s.len() ==> (#[trigger] s[i]) != '\n' && s[i] != '\\'
}

/// The names, labels, help and value of a line follow the format.
pub open spec fn valid_line(line: Line) -> bool {
    match line {
        Line::Help(name, help) => valid_metric_name(name) && needs_no_escape(help),
        Line::Kind(name, kind) => valid_metric_name(name),
        Line::Sample(name, labels, value) => valid_metric_name(name) && valid_labels(labels)
            && plain(value),
    }
}

/// Visible characters only: no blanks and no line breaks.
pub open spec fn one_word(s: Seq<char>) -> bool {
    forall|i: int| 0 <= i < s.len() ==> '!' <= #[trigger] s[i] <= '~'
}

proof fn lemma_labels_one_word(labels: Seq<Label>)
    requires
        valid_labels(labels),
    ensures
        one_word(joined_labels(labels)),
    decreases labels.len(),
{
    reveal_strlit("=\"");
    reveal_strlit("\"");
    reveal_strlit(",");
    if labels.len() > 0 {
        let last = labels.last();
        assert(labels[labels.len() - 1] == last);
        assert(one_word(last.0) && one_word(last.1));
        assert(one_word(label_text(last)));
        let rest = labels.drop_last();
        assert forall|i: int| 0 <= i < rest.len() implies valid_label_name(rest[i].0) && plain(
            (#[trigger] rest[i]).1,
        ) by {
            assert(labels[i] == rest[i]);
        }
        lemma_labels_one_word(rest);
    }
}

/// A well-formed line breaks at its end and nowhere else, and a sample is two words: its metric with
/// its labels, and its value.
pub proof fn a_valid_line_is_one_line(line: Line)
    requires
        valid_line(line),
    ensures
        line_text(line).len() > 0,
        line_text(line).last() == '\n',
        forall|i: int|
            0 <= i < line_text(line).len() - 1 ==> #[trigger] line_text(line)[i] != '\n',
        line matches Line::Sample(name, labels, value) ==> {
            &&& one_word(name + labels_text(labels))
            &&& one_word(value)
            &&& line_text(line) == (name + labels_text(labels)) + " "@ + value + "\n"@
        },
{
    reveal_strlit("\n");
    reveal_strlit(" ");
    match line {
        Line::Help(name, help) => {
            reveal(needs_no_escape);
            reveal_strlit("# HELP ");
        },
        Line::Kind(name, kind) => {
            reveal_strlit("# TYPE ");
            reveal_strlit("counter");
            reveal_strlit("gauge");
        },
        Line::Sample(name, labels, value) => {
            reveal_strlit("{");
            reveal_strlit("}");
            lemma_labels_one_word(labels);
            assert(one_word(name) && one_word(value));
            assert(one_word(labels_text(labels)));
        },
    }
}

/// The metric that a line speaks of.
pub open spec fn line_name(line: Line) -> Seq<char> {
    match line {
        Line::Help(name, help) => name,
        Line::Kind(name, kind) => name,
        Line::Sample(name, labels, value) => name,
    }
}

/// Whether the metric `name` has its type before line `i`.
pub open spec fn typed_before(lines: Seq<Line>, name: Seq<char>, i: int) -> bool {
    exists|j: int| 0 <= j < i && (#[trigger] lines[j]) is Kind && line_name(lines[j]) == name
}

/// Each `# HELP` line is followed by the `# TYPE` line of its metric, there is no other `# TYPE`
/// line, and no sample comes before the type of its metric.
pub open spec fn introduced(lines: Seq<Line>) -> bool {
    &&& forall|i: int|
        0 <= i < lines.len() && (#[trigger] lines[i]) is Help ==> i + 1 < lines.len() && lines[i
            + 1] is Kind && line_name(lines[i + 1]) == line_name(lines[i])
    &&& forall|i: int|
        0 <= i < lines.len() && (#[trigger] lines[i]) is Kind ==> i > 0 && lines[i - 1] is Help
            && line_name(lines[i - 1]) == line_name(lines[i])
    &&& forall|i: int|
        0 <= i < lines.len() && (#[trigger] lines[i]) is Sample ==> typed_before(
            lines,
            line_name(lines[i]),
            i,
        )
}

/// Every line is well formed and every metric introduced.
pub open spec fn sound(lines: Seq<Line>) -> bool {
    &&& introduced(lines)
    &&& forall|i: int| 0 <= i < lines.len() ==> valid_line(#[trigger] lines[i])
}

/// The metrics that are introduced, in order.
pub open spec fn help_names(lines: Seq<Line>) -> Seq<Seq<char>>
    decreases lines.len(),
{
    if lines.len() == 0 {
        Seq::empty()
    } else {
        let before = help_names(lines.drop_last());
        match lines.last() {
            Line::Help(name, help) => before.push(name),
            _ => before,
        }
    }
}

/// Every line is a well-formed sample of `name`.
pub open spec fn samples_of(lines: Seq<Line>, name: Seq<char>) -> bool {
    forall|i: int|
        0 <= i < lines.len() ==> (#[trigger] lines[i]) is Sample && line_name(lines[i]) == name
            && valid_line(lines[i])
}

pub proof fn lemma_help_names_concat(a: Seq<Line>, b: Seq<Line>)
    ensures
        help_names(a + b) == help_names(a) + help_names(b),
    decreases b.len(),
{
    if b.len() == 0 {
        assert(a + b =~= a);
        assert(help_names(a + b) =~= help_names(a) + help_names(b));
    } else {
        assert((a + b).drop_last() =~= a + b.drop_last());
        lemma_help_names_concat(a, b.drop_last());
        assert(help_names(a + b) =~= help_names(a) + help_names(b));
    }
}

/// Two sound runs of lines make a sound run.
pub proof fn lemma_sound_concat(a: Seq<Line>, b: Seq<Line>)
    requires
        sound(a),
        sound(b),
    ensures
        sound(a + b),
{
    let ab = a + b;
    assert forall|i: int| 0 <= i < ab.len() && (#[trigger] ab[i]) is Help implies i + 1 < ab.len()
        && ab[i + 1] is Kind && line_name(ab[i + 1]) == line_name(ab[i]) by {
        if i < a.len() {
            assert(a[i] is Help);
        } else {
            assert(b[i - a.len()] is Help);
        }
    }
    assert forall|i: int| 0 <= i < ab.len() && (#[trigger] ab[i]) is Kind implies i > 0 && ab[i
        - 1] is Help && line_name(ab[i - 1]) == line_name(ab[i]) by {
        if i < a.len() {
            assert(a[i] is Kind);
        } else {
            assert(b[i - a.len()] is Kind);
        }
    }
    assert forall|i: int| 0 <= i < ab.len() && (#[trigger] ab[i]) is Sample implies typed_before(
        ab,
        line_name(ab[i]),
        i,
    ) by {
        if i < a.len() {
            assert(a[i] is Sample);
            let j = choose|j: int|
                0 <= j < i && (#[trigger] a[j]) is Kind && line_name(a[j]) == line_name(a[i]);
            assert(ab[j] is Kind);
        } else {
            let k = i - a.len();
            assert(b[k] is Sample);
            let j = choose|j: int|
                0 <= j < k && (#[trigger] b[j]) is Kind && line_name(b[j]) == line_name(b[k]);
            assert(ab[j + a.len()] is Kind);
        }
    }
    assert forall|i: int| 0 <= i < ab.len() implies valid_line(#[trigger] ab[i]) by {
        if i < a.len() {
            assert(valid_line(a[i]));
        } else {
            assert(valid_line(b[i - a.len()]));
        }
    }
}

/// A metric introduced and followed by its samples is sound, and introduces that metric alone.
pub proof fn lemma_sound_family(
    name: Seq<char>,
    help: Seq<char>,
    kind: MetricKind,
    samples: Seq<Line>,
)
    requires
        valid_metric_name(name),
        needs_no_escape(help),
        samples_of(samples, name),
    ensures
        sound(head(name, help, kind) + samples),
        help_names(head(name, help, kind) + samples) == seq![name],
{
    let lines = head(name, help, kind) + samples;
    assert(lines[1] is Kind && line_name(lines[1]) == name);
    assert forall|i: int| 0 <= i < lines.len() && (#[trigger] lines[i]) is Sample implies
        typed_before(lines, line_name(lines[i]), i) by {
        assert(samples[i - 2] == lines[i]);
    }
    assert forall|i: int| 0 <= i < lines.len() implies valid_line(#[trigger] lines[i]) && (i >= 2
        ==> lines[i] is Sample) by {
        if i >= 2 {
            assert(samples[i - 2] == lines[i]);
        }
    }
    lemma_help_names_concat(head(name, help, kind), samples);
    lemma_head_names(name, help, kind);
    lemma_samples_name_nothing(samples, name);
    assert(help_names(lines) =~= seq![name]);
}

pub proof fn lemma_head_names(name: Seq<char>, help: Seq<char>, kind: MetricKind)
    ensures
        help_names(head(name, help, kind)) == seq![name],
{
    let h = head(name, help, kind);
    reveal_with_fuel(help_names, 3);
    assert(h.drop_last() =~= seq![Line::Help(name, help)]);
    assert(h.drop_last().drop_last() =~= Seq::<Line>::empty());
    assert(help_names(h) =~= seq![name]);
}

/// Samples introduce no metric.
pub proof fn lemma_samples_name_nothing(samples: Seq<Line>, name: Seq<char>)
    requires
        samples_of(samples, name),
    ensures
        help_names(samples) == Seq::<Seq<char>>::empty(),
    decreases samples.len(),
{
    if samples.len() > 0 {
        assert(samples.last() is Sample);
        lemma_samples_name_nothing(samples.drop_last(), name);
    }
}

/// Samples of metrics that were introduced before them keep a run sound.
pub proof fn lemma_sound_samples(a: Seq<Line>, b: Seq<Line>)
    requires
        sound(a),
        forall|i: int|
            0 <= i < b.len() ==> (#[trigger] b[i]) is Sample && valid_line(b[i]) && typed_before(
                a,
                line_name(b[i]),
                a.len() as int,
            ),
    ensures
        sound(a + b),
        help_names(a + b) == help_names(a),
    decreases b.len(),
{
    if b.len() == 0 {
        assert(a + b =~= a);
    } else {
        let c = b.drop_last();
        lemma_sound_samples(a, c);
        let ac = a + c;
        let x = b.last();
        let ab = a + b;
        assert(ab =~= ac.push(x));
        assert(ab.drop_last() =~= ac);
        assert(x == b[b.len() - 1]);
        let j = choose|j: int|
            0 <= j < a.len() && (#[trigger] a[j]) is Kind && line_name(a[j]) == line_name(x);
        assert(ab[j] == a[j]);
        assert forall|i: int| 0 <= i < ab.len() && (#[trigger] ab[i]) is Help implies i + 1
            < ab.len() && ab[i + 1] is Kind && line_name(ab[i + 1]) == line_name(ab[i]) by {
            assert(ac[i] is Help);
        }
        assert forall|i: int| 0 <= i < ab.len() && (#[trigger] ab[i]) is Kind implies i > 0 && ab[i
            - 1] is Help && line_name(ab[i - 1]) == line_name(ab[i]) by {
            assert(ac[i] is Kind);
        }
        assert forall|i: int| 0 <= i < ab.len() && (#[trigger] ab[i]) is Sample implies
            typed_before(ab, line_name(ab[i]), i) by {
            if i < ac.len() {
                assert(ac[i] is Sample);
                let k = choose|k: int|
                    0 <= k < i && (#[trigger] ac[k]) is Kind && line_name(ac[k]) == line_name(
                        ac[i],
                    );
                assert(ab[k] is Kind);
            }
        }
        assert forall|i: int| 0 <= i < ab.len() implies valid_line(#[trigger] ab[i]) by {
            if i < ac.len() {
                assert(valid_line(ac[i]));
            }
        }
    }
}

/// What holds of every line of every block holds of every line of the run.
pub proof fn lemma_each_all(n: nat, f: spec_fn(int) -> Seq<Line>, p: spec_fn(Line) -> bool)
    requires
        forall|i: int, k: int| 0 <= i < n && 0 <= k < f(i).len() ==> p(#[trigger] f(i)[k]),
    ensures
        forall|k: int| 0 <= k < each(n, f).len() ==> p(#[trigger] each(n, f)[k]),
    decreases n,
{
    if n > 0 {
        lemma_each_all((n - 1) as nat, f, p);
        let a = each((n - 1) as nat, f);
        assert forall|k: int| 0 <= k < each(n, f).len() implies p(#[trigger] each(n, f)[k]) by {
            if k < a.len() {
                assert(p(a[k]));
            } else {
                assert(p(f(n - 1)[k - a.len()]));
            }
        }
    }
}

/// Blocks that each hold samples of one metric make a run of its samples.
pub proof fn lemma_each_samples(n: nat, f: spec_fn(int) -> Seq<Line>, name: Seq<char>)
    requires
        forall|i: int| 0 <= i < n ==> samples_of(#[trigger] f(i), name),
    ensures
        samples_of(each(n, f), name),
    decreases n,
{
    if n > 0 {
        lemma_each_samples((n - 1) as nat, f, name);
        let a = each((n - 1) as nat, f);
        let b = f(n - 1);
        assert forall|i: int| 0 <= i < (a + b).len() implies (#[trigger] (a + b)[i]) is Sample
            && line_name((a + b)[i]) == name && valid_line((a + b)[i]) by {
            if i < a.len() {
                assert(a[i] is Sample);
            } else {
                assert(b[i - a.len()] is Sample);
            }
        }
    }
}

/// The label pairs of a slice.
pub open spec fn pairs(labels: Seq<(&str, &str)>) -> Seq<Label> {
    labels.map(|i: int, p: (&str, &str)| (p.0@, p.1@))
}

/// A text under construction, with the lines it is made of.
pub struct Exposition {
    text: String,
    lines: Ghost<Seq<Line>>,
}

impl View for Exposition {
    type V = Seq<Line>;

    closed spec fn view(&self) -> Seq<Line> {
        self.lines@
    }
}

impl Exposition {
    /// The text is that of the lines.
    #[verifier::type_invariant]
    closed spec fn faithful(self) -> bool {
        self.text@ == lines_text(self.lines@)
    }

    pub fn new() -> (e: Self)
        ensures
            e@ == Seq::<Line>::empty(),
    {
        Exposition { text: String::new(), lines: Ghost(Seq::empty()) }
    }

    /// The finished text.
    pub fn into_text(self) -> (s: String)
        ensures
            s@ == lines_text(self@),
    {
        proof {
            use_type_invariant(&self);
        }
        self.text
    }

    /// Appends one line, of which `text` is the text.
    fn push_line(&mut self, text: &str, Ghost(line): Ghost<Line>)
        requires
            text@ == line_text(line),
        ensures
            final(self)@ == old(self)@.push(line),
    {
        let mut taken: Exposition = Exposition::new();
        std::mem::swap(self, &mut taken);
        proof {
            use_type_invariant(&taken);
        }
        let ghost lines = taken.lines@.push(line);
        assert(lines.drop_last() =~= taken.lines@);
        let mut all: String = taken.text;
        all.append(text);
        *self = Exposition { text: all, lines: Ghost(lines) };
    }

    /// Appends the two lines that introduce a metric.
    pub fn introduce(&mut self, name: &str, help: &str, kind: MetricKind)
        ensures
            final(self)@ =~= old(self)@ + head(name@, help@, kind),
    {
        let mut line: String = "# HELP ".to_owned();
        line.append(name);
        line.append(" ");
        line.append(help);
        line.append("\n");
        self.push_line(line.as_str(), Ghost(Line::Help(name@, help@)));
        let mut line: String = "# TYPE ".to_owned();
        line.append(name);
        line.append(" ");
        line.append(kind.name());
        line.append("\n");
        self.push_line(line.as_str(), Ghost(Line::Kind(name@, kind)));
    }

    /// Appends one sample.
    pub fn sample(&mut self, name: &str, labels: &[(&str, &str)], value: &str)
        ensures
            final(self)@ =~= old(self)@.push(Line::Sample(name@, pairs(labels@), value@)),
    {
        let mut line: String = name.to_owned();
        if labels.len() > 0 {
            line.append("{");
            let ghost opened = line@;
            let mut i: usize = 0;
            while i < labels.len()
                invariant
                    i <= labels@.len(),
                    line@ == opened + joined_labels(pairs(labels@).take(i as int)),
                decreases labels@.len() - i,
            {
                let ghost before = pairs(labels@).take(i as int);
                let ghost after = pairs(labels@).take(i + 1);
                if i > 0 {
                    line.append(",");
                }
                let (label, text) = labels[i];
                line.append(label);
                line.append("=\"");
                line.append(text);
                line.append("\"");
                proof {
                    assert(after.drop_last() =~= before);
                    assert(after.last() == (label@, text@));
                    if i == 0 {
                        assert(before =~= Seq::empty());
                    }
                    assert(line@ =~= opened + joined_labels(after));
                }
                i = i + 1;
            }
            assert(pairs(labels@).take(labels@.len() as int) =~= pairs(labels@));
            line.append("}");
            assert(line@ =~= name@ + labels_text(pairs(labels@)));
        } else {
            assert(line@ =~= name@ + labels_text(pairs(labels@)));
        }
        line.append(" ");
        line.append(value);
        line.append("\n");
        self.push_line(line.as_str(), Ghost(Line::Sample(name@, pairs(labels@), value@)));
    }
}

} // verus!
