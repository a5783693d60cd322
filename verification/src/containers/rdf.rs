//! RDF terms and triples, as the header of an HDT file holds them.
use vstd::prelude::*;

verus! {

/// An IRI or a blank node.
#[derive(Debug, PartialEq, Eq, PartialOrd, Ord, Hash)]
pub enum Id {
    /// An IRI, without angle brackets.
    Named(String),
    /// A blank node's label, without `_:`.
    Blank(String),
}

/// The model of [`Id`].
pub enum IdView {
    Named(Seq<char>),
    Blank(Seq<char>),
}

impl View for Id {
    type V = IdView;

    open spec fn view(&self) -> IdView {
        match self {
            Id::Named(iri) => IdView::Named(iri@),
            Id::Blank(label) => IdView::Blank(label@),
        }
    }
}

impl Clone for Id {
    fn clone(&self) -> (copy: Id)
        ensures
            copy@ == self@,
    {
        match self {
            Id::Named(iri) => Id::Named(iri.clone()),
            Id::Blank(label) => Id::Blank(label.clone()),
        }
    }
}

/// A literal.
#[derive(Debug, PartialEq, Eq, PartialOrd, Ord, Hash)]
pub enum Literal {
    /// A plain string.
    Plain { form: String },
    /// A lexical form with the IRI of its datatype.
    Typed { form: String, datatype: String },
    /// A string with its language tag.
    Lang { form: String, lang: String },
}

/// The model of [`Literal`].
pub enum LiteralView {
    Plain { form: Seq<char> },
    Typed { form: Seq<char>, datatype: Seq<char> },
    Lang { form: Seq<char>, lang: Seq<char> },
}

impl View for Literal {
    type V = LiteralView;

    open spec fn view(&self) -> LiteralView {
        match self {
            Literal::Plain { form } => LiteralView::Plain { form: form@ },
            Literal::Typed { form, datatype } => LiteralView::Typed {
                form: form@,
                datatype: datatype@,
            },
            Literal::Lang { form, lang } => LiteralView::Lang { form: form@, lang: lang@ },
        }
    }
}

impl Clone for Literal {
    fn clone(&self) -> (copy: Literal)
        ensures
            copy@ == self@,
    {
        match self {
            Literal::Plain { form } => Literal::Plain { form: form.clone() },
            Literal::Typed { form, datatype } => Literal::Typed {
                form: form.clone(),
                datatype: datatype.clone(),
            },
            Literal::Lang { form, lang } => Literal::Lang { form: form.clone(), lang: lang.clone() },
        }
    }
}

impl Literal {
    /// A plain string.
    pub fn new(form: String) -> (literal: Literal)
        ensures
            literal@ == (LiteralView::Plain { form: form@ }),
            literal matches Literal::Plain { form: f } && f@ == form@,
    {
        Literal::Plain { form }
    }

    /// A lexical form with the IRI of its datatype.
    pub fn new_typed(form: String, datatype: String) -> (literal: Literal)
        ensures
            literal@ == (LiteralView::Typed { form: form@, datatype: datatype@ }),
            literal matches Literal::Typed { form: f, datatype: d } && f@ == form@ && d@ == datatype@,
    {
        Literal::Typed { form, datatype }
    }

    /// A string with its language tag.
    pub fn new_lang(form: String, lang: String) -> (literal: Literal)
        ensures
            literal@ == (LiteralView::Lang { form: form@, lang: lang@ }),
            literal matches Literal::Lang { form: f, lang: l } && f@ == form@ && l@ == lang@,
    {
        Literal::Lang { form, lang }
    }
}

/// What can stand as the object of a triple.
#[derive(Debug, PartialEq, Eq, PartialOrd, Ord, Hash)]
pub enum Term {
    Id(Id),
    Literal(Literal),
}

/// The model of [`Term`].
pub enum TermView {
    Id(IdView),
    Literal(LiteralView),
}

impl View for Term {
    type V = TermView;

    open spec fn view(&self) -> TermView {
        match self {
            Term::Id(id) => TermView::Id(id@),
            Term::Literal(literal) => TermView::Literal(literal@),
        }
    }
}

impl Clone for Term {
    fn clone(&self) -> (copy: Term)
        ensures
            copy@ == self@,
    {
        match self {
            Term::Id(id) => Term::Id(id.clone()),
            Term::Literal(literal) => Term::Literal(literal.clone()),
        }
    }
}

/// An RDF triple.
#[derive(Debug, PartialEq, Eq, PartialOrd, Ord, Hash)]
pub struct Triple {
    pub subject: Id,
    /// The predicate's IRI, without angle brackets.
    pub predicate: String,
    pub object: Term,
}

/// The model of [`Triple`].
pub struct TripleView {
    pub subject: IdView,
    pub predicate: Seq<char>,
    pub object: TermView,
}

impl View for Triple {
    type V = TripleView;

    open spec fn view(&self) -> TripleView {
        TripleView { subject: self.subject@, predicate: self.predicate@, object: self.object@ }
    }
}

impl Clone for Triple {
    fn clone(&self) -> (copy: Triple)
        ensures
            copy@ == self@,
    {
        Triple {
            subject: self.subject.clone(),
            predicate: self.predicate.clone(),
            object: self.object.clone(),
        }
    }
}

impl Triple {
    pub fn new(subject: Id, predicate: String, object: Term) -> (triple: Triple)
        ensures
            triple@ == (TripleView { subject: subject@, predicate: predicate@, object: object@ }),
            triple.subject == subject,
            triple.predicate == predicate,
            triple.object == object,
    {
        Triple { subject, predicate, object }
    }
}

/// The character of an N-Triples string that stands for `c`: itself, or an escape.
pub open spec fn escaped_char(c: char) -> Seq<char> {
    if c == '"' {
        seq!['\\', '"']
    } else if c == '\\' {
        seq!['\\', '\\']
    } else if c == '\n' {
        seq!['\\', 'n']
    } else if c == '\r' {
        seq!['\\', 'r']
    } else {
        seq![c]
    }
}

/// A string with the escapes of N-Triples.
pub open spec fn escaped(s: Seq<char>) -> Seq<char>
    decreases s.len(),
{
    if s.len() == 0 {
        Seq::empty()
    } else {
        escaped(s.drop_last()) + escaped_char(s.last())
    }
}

impl IdView {
    /// The N-Triples form.
    pub open spec fn text(self) -> Seq<char> {
        match self {
            IdView::Named(iri) => "<"@ + iri + ">"@,
            IdView::Blank(label) => "_:"@ + label,
        }
    }
}

impl LiteralView {
    /// The N-Triples form.
    pub open spec fn text(self) -> Seq<char> {
        match self {
            LiteralView::Plain { form } => "\""@ + escaped(form) + "\""@,
            LiteralView::Typed { form, datatype } => "\""@ + escaped(form) + "\"^^<"@ + datatype
                + ">"@,
            LiteralView::Lang { form, lang } => "\""@ + escaped(form) + "\"@"@ + lang,
        }
    }
}

impl TermView {
    /// The N-Triples form.
    pub open spec fn text(self) -> Seq<char> {
        match self {
            TermView::Id(id) => id.text(),
            TermView::Literal(literal) => literal.text(),
        }
    }
}

impl TripleView {
    /// The N-Triples form, without the line's end.
    pub open spec fn text(self) -> Seq<char> {
        self.subject.text() + " <"@ + self.predicate + "> "@ + self.object.text() + " ."@
    }
}

/// Appends a string with the escapes of N-Triples.
fn append_escaped(out: &mut String, s: &str)
    ensures
        final(out)@ == old(out)@ + escaped(s@),
{
    let ghost before = out@;
    assert(s@.take(0) =~= Seq::<char>::empty());
    for c in it: s.chars()
        invariant
            it.seq() == s@,
            0 <= it.index() <= s@.len(),
            out@ =~= before + escaped(s@.take(it.index())),
    {
        let ghost at = it.index();
        assert(s@.take(at + 1).drop_last() =~= s@.take(at));
        assert(s@.take(at + 1).last() == c);
        if c == '"' {
            out.push('\\');
            out.push('"');
        } else if c == '\\' {
            out.push('\\');
            out.push('\\');
        } else if c == '\n' {
            out.push('\\');
            out.push('n');
        } else if c == '\r' {
            out.push('\\');
            out.push('r');
        } else {
            out.push(c);
        }
    }
    assert(s@.take(s@.len() as int) =~= s@);
}

impl Id {
    /// Appends the N-Triples form.
    fn append_to(&self, out: &mut String)
        ensures
            final(out)@ == old(out)@ + self@.text(),
    {
        match self {
            Id::Named(iri) => {
                out.append("<");
                out.append(iri.as_str());
                out.append(">");
            },
            Id::Blank(label) => {
                out.append("_:");
                out.append(label.as_str());
            },
        }
        assert(out@ =~= old(out)@ + self@.text());
    }
}

impl Literal {
    /// Appends the N-Triples form.
    fn append_to(&self, out: &mut String)
        ensures
            final(out)@ == old(out)@ + self@.text(),
    {
        match self {
            Literal::Plain { form } => {
                out.append("\"");
                append_escaped(out, form.as_str());
                out.append("\"");
            },
            Literal::Typed { form, datatype } => {
                out.append("\"");
                append_escaped(out, form.as_str());
                out.append("\"^^<");
                out.append(datatype.as_str());
                out.append(">");
            },
            Literal::Lang { form, lang } => {
                out.append("\"");
                append_escaped(out, form.as_str());
                out.append("\"@");
                out.append(lang.as_str());
            },
        }
        assert(out@ =~= old(out)@ + self@.text());
    }
}

impl Triple {
    /// Appends the N-Triples form, without the line's end.
    pub(crate) fn append_to(&self, out: &mut String)
        ensures
            final(out)@ == old(out)@ + self@.text(),
    {
        self.subject.append_to(out);
        out.append(" <");
        out.append(self.predicate.as_str());
        out.append("> ");
        match &self.object {
            Term::Id(id) => id.append_to(out),
            Term::Literal(literal) => literal.append_to(out),
        }
        out.append(" .");
        assert(out@ =~= old(out)@ + self@.text());
    }

    /// The N-Triples form, without the line's end.
    pub fn to_text(&self) -> (text: String)
        ensures
            text@ == self@.text(),
    {
        let mut text = String::new();
        self.append_to(&mut text);
        assert(text@ =~= self@.text());
        text
    }
}

/// The character that an escape stands for, by the one behind its backslash.
pub open spec fn unescaped_char(c: char) -> Option<char> {
    if c == '"' || c == '\\' {
        Some(c)
    } else if c == 'n' {
        Some('\n')
    } else if c == 'r' {
        Some('\r')
    } else {
        None
    }
}

/// The string that a string of N-Triples stands for: an escape stands for its
/// character, any other character for itself.
pub open spec fn unescaped(s: Seq<char>) -> Seq<char>
    decreases s.len(),
{
    if s.len() == 0 {
        Seq::empty()
    } else if s[0] == '\\' && s.len() > 1 && unescaped_char(s[1]) is Some {
        seq![unescaped_char(s[1]).unwrap()] + unescaped(s.skip(2))
    } else {
        seq![s[0]] + unescaped(s.skip(1))
    }
}

/// What a literal's text holds behind its opening quote: the string up to the
/// closing quote, and what follows that. `None` where there is no closing quote.
pub open spec fn quoted(s: Seq<char>) -> Option<(Seq<char>, Seq<char>)>
    decreases s.len(),
{
    if s.len() == 0 {
        None
    } else if s[0] == '"' {
        Some((Seq::empty(), s.skip(1)))
    } else if s[0] == '\\' && s.len() > 1 && unescaped_char(s[1]) is Some {
        match quoted(s.skip(2)) {
            None => None,
            Some((form, rest)) => Some((seq![unescaped_char(s[1]).unwrap()] + form, rest)),
        }
    } else {
        match quoted(s.skip(1)) {
            None => None,
            Some((form, rest)) => Some((seq![s[0]] + form, rest)),
        }
    }
}

proof fn lemma_escaped_from_the_front(s: Seq<char>)
    requires
        s.len() > 0,
    ensures
        escaped(s) == escaped_char(s[0]) + escaped(s.skip(1)),
    decreases s.len(),
{
    if s.len() == 1 {
        assert(s.drop_last() =~= Seq::<char>::empty());
        assert(s.skip(1) =~= Seq::<char>::empty());
    } else {
        lemma_escaped_from_the_front(s.drop_last());
        assert(s.drop_last().skip(1) =~= s.skip(1).drop_last());
    }
    assert(escaped(s) =~= escaped_char(s[0]) + escaped(s.skip(1)));
}

/// The escapes of N-Triples can be undone: what is written for a string stands
/// for it.
pub proof fn escapes_can_be_undone(s: Seq<char>)
    ensures
        unescaped(escaped(s)) == s,
    decreases s.len(),
{
    if s.len() > 0 {
        lemma_escaped_from_the_front(s);
        escapes_can_be_undone(s.skip(1));
        let e = escaped(s);
        let n = escaped_char(s[0]).len() as int;
        assert(e.skip(n) =~= escaped(s.skip(1)));
        assert(unescaped(e) =~= s);
    }
}

/// Quotes, backslashes, line feeds and carriage returns are written as a
/// backslash and one more character. Every other character is written as itself.
pub proof fn each_character_has_its_escape(s: Seq<char>, c: char)
    ensures
        escaped(Seq::empty()) == Seq::<char>::empty(),
        escaped(s.push('"')) == escaped(s).push('\\').push('"'),
        escaped(s.push('\\')) == escaped(s).push('\\').push('\\'),
        escaped(s.push('\n')) == escaped(s).push('\\').push('n'),
        escaped(s.push('\r')) == escaped(s).push('\\').push('r'),
        c != '"' && c != '\\' && c != '\n' && c != '\r' ==> escaped(s.push(c)) == escaped(s).push(c),
{
    assert(s.push('"').drop_last() =~= s);
    assert(s.push('\\').drop_last() =~= s);
    assert(s.push('\n').drop_last() =~= s);
    assert(s.push('\r').drop_last() =~= s);
    assert(s.push(c).drop_last() =~= s);
}

/// What is written for a string is on one line.
pub proof fn escaped_strings_have_no_line_ends(s: Seq<char>, i: int)
    requires
        0 <= i < escaped(s).len(),
    ensures
        escaped(s)[i] != '\n',
        escaped(s)[i] != '\r',
    decreases s.len(),
{
    if s.len() > 0 && i < escaped(s.drop_last()).len() {
        escaped_strings_have_no_line_ends(s.drop_last(), i);
    }
}

/// A literal's string ends at the first quote that is not part of an escape, so
/// it and what follows it are found again.
pub proof fn quoted_strings_are_found_again(form: Seq<char>, rest: Seq<char>)
    ensures
        quoted(escaped(form) + seq!['"'] + rest) == Some((form, rest)),
    decreases form.len(),
{
    let s = escaped(form) + seq!['"'] + rest;
    if form.len() == 0 {
        assert(s[0] == '"');
        assert(s.skip(1) =~= rest);
        assert(form =~= Seq::<char>::empty());
    } else {
        lemma_escaped_from_the_front(form);
        quoted_strings_are_found_again(form.skip(1), rest);
        let n = escaped_char(form[0]).len() as int;
        assert(s.skip(n) =~= escaped(form.skip(1)) + seq!['"'] + rest);
        assert(seq![form[0]] + form.skip(1) =~= form);
    }
}

/// What is written of terms and triples.
pub proof fn terms_are_written_in_ntriples(
    text: Seq<char>,
    extra: Seq<char>,
    subject: IdView,
    object: TermView,
)
    ensures
        IdView::Named(text).text() == seq!['<'] + text + seq!['>'],
        IdView::Blank(text).text() == seq!['_', ':'] + text,
        (LiteralView::Plain { form: text }).text() == seq!['"'] + escaped(text) + seq!['"'],
        (LiteralView::Typed { form: text, datatype: extra }).text() == seq!['"'] + escaped(text)
            + seq!['"', '^', '^', '<'] + extra + seq!['>'],
        (LiteralView::Lang { form: text, lang: extra }).text() == seq!['"'] + escaped(text) + seq![
            '"',
            '@',
        ] + extra,
        object matches TermView::Id(id) ==> object.text() == id.text(),
        object matches TermView::Literal(literal) ==> object.text() == literal.text(),
        (TripleView { subject, predicate: text, object }).text() == subject.text() + seq![' ', '<']
            + text + seq!['>', ' '] + object.text() + seq![' ', '.'],
{
    reveal_strlit("<");
    reveal_strlit(">");
    reveal_strlit("_:");
    reveal_strlit("\"");
    reveal_strlit("\"^^<");
    reveal_strlit("\"@");
    reveal_strlit(" <");
    reveal_strlit("> ");
    reveal_strlit(" .");
    assert("<"@ =~= seq!['<']);
    assert(">"@ =~= seq!['>']);
    assert("_:"@ =~= seq!['_', ':']);
    assert("\""@ =~= seq!['"']);
    assert("\"^^<"@ =~= seq!['"', '^', '^', '<']);
    assert("\"@"@ =~= seq!['"', '@']);
    assert(" <"@ =~= seq![' ', '<']);
    assert("> "@ =~= seq!['>', ' ']);
    assert(" ."@ =~= seq![' ', '.']);
}

/// Terms that differ are written differently, whatever characters they hold.
pub proof fn different_terms_are_written_differently(a: TermView, b: TermView)
    requires
        a.text() == b.text(),
    ensures
        a == b,
{
    let x = a.text();
    lemma_term_text(a);
    lemma_term_text(b);
    match (a, b) {
        (TermView::Id(IdView::Named(p)), TermView::Id(IdView::Named(q))) => {
            assert(p.len() + 2 == x.len());
            assert(x.subrange(1, x.len() - 1) =~= p);
            assert(b.text().subrange(1, x.len() - 1) =~= q);
        },
        (TermView::Id(IdView::Blank(p)), TermView::Id(IdView::Blank(q))) => {
            assert(x.skip(2) =~= p);
            assert(b.text().skip(2) =~= q);
        },
        (TermView::Literal(p), TermView::Literal(q)) => {
            let (f, r) = literal_parts(p);
            let (g, t) = literal_parts(q);
            quoted_strings_are_found_again(f, r);
            quoted_strings_are_found_again(g, t);
            assert(x.skip(1) =~= escaped(f) + seq!['"'] + r);
            assert(b.text().skip(1) =~= escaped(g) + seq!['"'] + t);
            assert(f == g && r == t);
            lemma_literal_parts(p, q);
        },
        _ => {
            assert(x[0] == b.text()[0]);
        },
    }
}

/// The string of a literal, and what follows its closing quote.
spec fn literal_parts(literal: LiteralView) -> (Seq<char>, Seq<char>) {
    match literal {
        LiteralView::Plain { form } => (form, Seq::empty()),
        LiteralView::Typed { form, datatype } => (form, seq!['^', '^', '<'] + datatype + seq!['>']),
        LiteralView::Lang { form, lang } => (form, seq!['@'] + lang),
    }
}

proof fn lemma_term_text(a: TermView)
    ensures
        match a {
            TermView::Id(IdView::Named(iri)) => a.text() == seq!['<'] + iri + seq!['>'],
            TermView::Id(IdView::Blank(label)) => a.text() == seq!['_', ':'] + label,
            TermView::Literal(literal) => a.text() == seq!['"'] + escaped(literal_parts(literal).0)
                + seq!['"'] + literal_parts(literal).1,
        },
{
    let id = IdView::Named(Seq::empty());
    match a {
        TermView::Id(IdView::Named(iri)) => {
            terms_are_written_in_ntriples(iri, iri, id, a);
        },
        TermView::Id(IdView::Blank(label)) => {
            terms_are_written_in_ntriples(label, label, id, a);
        },
        TermView::Literal(literal) => {
            let extra = match literal {
                LiteralView::Plain { form } => form,
                LiteralView::Typed { form, datatype } => datatype,
                LiteralView::Lang { form, lang } => lang,
            };
            let (form, rest) = literal_parts(literal);
            terms_are_written_in_ntriples(form, extra, id, a);
            assert(a.text() =~= seq!['"'] + escaped(form) + seq!['"'] + rest);
        },
    }
}

proof fn lemma_literal_parts(p: LiteralView, q: LiteralView)
    requires
        literal_parts(p) == literal_parts(q),
    ensures
        p == q,
{
    let r = literal_parts(p).1;
    match (p, q) {
        (LiteralView::Typed { datatype: d, .. }, LiteralView::Typed { datatype: e, .. }) => {
            assert(r.subrange(3, r.len() - 1) =~= d);
            assert(literal_parts(q).1.subrange(3, r.len() - 1) =~= e);
        },
        (LiteralView::Lang { lang: d, .. }, LiteralView::Lang { lang: e, .. }) => {
            assert(r.skip(1) =~= d);
            assert(literal_parts(q).1.skip(1) =~= e);
        },
        (LiteralView::Plain { .. }, LiteralView::Plain { .. }) => {},
        _ => {
            assert(p is Typed ==> literal_parts(p).1[0] == '^');
            assert(q is Typed ==> literal_parts(q).1[0] == '^');
            assert(p is Lang ==> literal_parts(p).1[0] == '@');
            assert(q is Lang ==> literal_parts(q).1[0] == '@');
        },
    }
}

/// The text of an IRI's or a blank node's name.
pub open spec fn name_of(id: IdView) -> Seq<char> {
    match id {
        IdView::Named(iri) => iri,
        IdView::Blank(label) => label,
    }
}

/// Triples that differ are written as lines that differ. The names of their
/// subjects and predicates hold no spaces, as those of RDF do not.
pub proof fn different_triples_have_different_lines(a: TripleView, b: TripleView)
    requires
        a.text() == b.text(),
        !name_of(a.subject).contains(' '),
        !name_of(b.subject).contains(' '),
        !a.predicate.contains(' '),
        !b.predicate.contains(' '),
    ensures
        a == b,
{
    let x = a.text();
    let y = b.text();
    terms_are_written_in_ntriples(a.predicate, a.predicate, a.subject, a.object);
    terms_are_written_in_ntriples(b.predicate, b.predicate, b.subject, b.object);
    lemma_id_has_no_space(a.subject);
    lemma_id_has_no_space(b.subject);
    let n = a.subject.text().len() as int;
    let m = b.subject.text().len() as int;
    assert(x[n] == ' ' && y[m] == ' ');
    if n < m {
        assert(y[n] == b.subject.text()[n]);
        assert(b.subject.text().contains(' '));
    }
    if m < n {
        assert(x[m] == a.subject.text()[m]);
        assert(a.subject.text().contains(' '));
    }
    assert(x.take(n) =~= a.subject.text());
    assert(y.take(n) =~= b.subject.text());
    different_terms_are_written_differently(TermView::Id(a.subject), TermView::Id(b.subject));
    let k = a.predicate.len() as int;
    let l = b.predicate.len() as int;
    assert(x[n + 3 + k] == ' ' && y[n + 3 + l] == ' ');
    assert(x[n + 2 + k] == '>' && y[n + 2 + l] == '>');
    if k < l {
        if k + 1 < l {
            assert(y[n + 3 + k] == b.predicate[k + 1]);
            assert(b.predicate.contains(' '));
        } else {
            assert(y[n + 3 + k] == '>');
        }
    }
    if l < k {
        if l + 1 < k {
            assert(x[n + 3 + l] == a.predicate[l + 1]);
            assert(a.predicate.contains(' '));
        } else {
            assert(x[n + 3 + l] == '>');
        }
    }
    assert(x.subrange(n + 2, n + 2 + k) =~= a.predicate);
    assert(y.subrange(n + 2, n + 2 + k) =~= b.predicate);
    assert(x.subrange(n + 4 + k, x.len() - 2) =~= a.object.text());
    assert(y.subrange(n + 4 + k, x.len() - 2) =~= b.object.text());
    different_terms_are_written_differently(a.object, b.object);
}

proof fn lemma_id_has_no_space(id: IdView)
    requires
        !name_of(id).contains(' '),
    ensures
        !id.text().contains(' '),
{
    lemma_term_text(TermView::Id(id));
    if id.text().contains(' ') {
        let i = id.text().index_of(' ');
        let n = if id is Named {
            1int
        } else {
            2int
        };
        if n <= i < n + name_of(id).len() {
            assert(name_of(id)[i - n] == ' ');
        }
    }
}

/// The models of terms and triples hold the texts that these hold.
pub proof fn models_hold_the_same_texts(id: Id, literal: Literal, term: Term, triple: Triple)
    ensures
        id matches Id::Named(iri) ==> id@ == IdView::Named(iri@),
        id matches Id::Blank(label) ==> id@ == IdView::Blank(label@),
        literal matches Literal::Plain { form } ==> literal@ == (LiteralView::Plain { form: form@ }),
        literal matches Literal::Typed { form, datatype } ==> literal@ == (LiteralView::Typed {
            form: form@,
            datatype: datatype@,
        }),
        literal matches Literal::Lang { form, lang } ==> literal@ == (LiteralView::Lang {
            form: form@,
            lang: lang@,
        }),
        term matches Term::Id(id) ==> term@ == TermView::Id(id@),
        term matches Term::Literal(literal) ==> term@ == TermView::Literal(literal@),
        triple@ == (TripleView {
            subject: triple.subject@,
            predicate: triple.predicate@,
            object: triple.object@,
        }),
{
}

} // verus!
