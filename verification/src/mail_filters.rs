use vstd::prelude::*;

verus! {

/// A logical mail header usable in a restricted fetch, optionally carrying a
/// value predicate. Identity is by tag alone: two selectors for the same
/// field with different predicate values count as the same selector, and the
/// rendered filter expression mentions only the tags, never the predicate
/// values. A date predicate is carried as a unix timestamp.
#[derive(Debug, Clone)]
pub enum HeaderField {
    Subject(Option<String>),
    To(Option<String>),
    From(Option<String>),
    Date(Option<i64>),
}

impl HeaderField {
    /// Both selectors name the same header field, predicates aside.
    pub open spec fn same_tag(self, other: HeaderField) -> bool {
        match (self, other) {
            (HeaderField::Subject(_), HeaderField::Subject(_)) => true,
            (HeaderField::To(_), HeaderField::To(_)) => true,
            (HeaderField::From(_), HeaderField::From(_)) => true,
            (HeaderField::Date(_), HeaderField::Date(_)) => true,
            _ => false,
        }
    }

    /// The protocol name of the selected header field.
    pub open spec fn tag_str(self) -> Seq<char> {
        match self {
            HeaderField::Subject(_) => "SUBJECT"@,
            HeaderField::To(_) => "TO"@,
            HeaderField::From(_) => "FROM"@,
            HeaderField::Date(_) => "DATE"@,
        }
    }

    /// The protocol name of the selected header field.
    pub fn filter_str(&self) -> (r: &'static str)
        ensures
            r@ == self.tag_str(),
    {
        match self {
            HeaderField::Subject(_) => "SUBJECT",
            HeaderField::To(_) => "TO",
            HeaderField::From(_) => "FROM",
            HeaderField::Date(_) => "DATE",
        }
    }
}

impl PartialEq for HeaderField {
    fn eq(&self, other: &Self) -> bool {
        match (self, other) {
            (HeaderField::Subject(_), HeaderField::Subject(_)) => true,
            (HeaderField::To(_), HeaderField::To(_)) => true,
            (HeaderField::From(_), HeaderField::From(_)) => true,
            (HeaderField::Date(_), HeaderField::Date(_)) => true,
            _ => false,
        }
    }
}

impl vstd::std_specs::cmp::PartialEqSpecImpl for HeaderField {
    open spec fn obeys_eq_spec() -> bool {
        true
    }

    open spec fn eq_spec(&self, other: &HeaderField) -> bool {
        self.same_tag(*other)
    }
}

/// Which of the four header fields a selector sequence mentions.
pub struct TagPresence {
    pub subject: bool,
    pub to: bool,
    pub from: bool,
    pub date: bool,
}

pub open spec fn seq_has_subject(s: Seq<HeaderField>) -> bool {
    exists|i: int| 0 <= i < s.len() && (#[trigger] s[i]) is Subject
}

pub open spec fn seq_has_to(s: Seq<HeaderField>) -> bool {
    exists|i: int| 0 <= i < s.len() && (#[trigger] s[i]) is To
}

pub open spec fn seq_has_from(s: Seq<HeaderField>) -> bool {
    exists|i: int| 0 <= i < s.len() && (#[trigger] s[i]) is From
}

pub open spec fn seq_has_date(s: Seq<HeaderField>) -> bool {
    exists|i: int| 0 <= i < s.len() && (#[trigger] s[i]) is Date
}

pub open spec fn tags_of(s: Seq<HeaderField>) -> TagPresence {
    TagPresence {
        subject: seq_has_subject(s),
        to: seq_has_to(s),
        from: seq_has_from(s),
        date: seq_has_date(s),
    }
}

/// Joins one more tag onto a comma-separated list.
pub open spec fn append_tag(acc: Seq<char>, tag: Seq<char>) -> Seq<char> {
    if acc.len() == 0 {
        tag
    } else {
        acc + ", "@ + tag
    }
}

/// The comma-separated tag list in canonical order: SUBJECT, TO, FROM, DATE.
pub open spec fn tag_list(t: TagPresence) -> Seq<char> {
    let s0 = Seq::<char>::empty();
    let s1 = if t.subject {
        append_tag(s0, "SUBJECT"@)
    } else {
        s0
    };
    let s2 = if t.to {
        append_tag(s1, "TO"@)
    } else {
        s1
    };
    let s3 = if t.from {
        append_tag(s2, "FROM"@)
    } else {
        s2
    };
    if t.date {
        append_tag(s3, "DATE"@)
    } else {
        s3
    }
}

/// The complete rendered filter expression, or `None` when no field at all
/// is selected (the caller must then fetch the unrestricted message).
pub open spec fn render_filter(t: TagPresence, negated: bool) -> Option<Seq<char>> {
    if !t.subject && !t.to && !t.from && !t.date {
        None
    } else {
        Some(
            "HEADER.FIELDS"@ + (if negated {
                ".NOT"@
            } else {
                Seq::<char>::empty()
            }) + " ("@ + tag_list(t) + ")"@,
        )
    }
}

/// A set of header-field selectors plus a negation flag, rendered into the
/// protocol's field-selection expression. The rendering is canonical: which
/// tags occur decides the output, never the order or multiplicity in which
/// the selectors were supplied.
#[derive(Debug, Clone)]
pub struct HeaderFilter {
    fields: Vec<HeaderField>,
    negated: bool,
}

impl HeaderFilter {
    pub closed spec fn fields_seq(&self) -> Seq<HeaderField> {
        self.fields@
    }

    pub closed spec fn is_negated(&self) -> bool {
        self.negated
    }

    pub open spec fn tags(&self) -> TagPresence {
        tags_of(self.fields_seq())
    }

    pub fn new(fields: Vec<HeaderField>, negated: bool) -> (r: Self)
        ensures
            r.fields_seq() == fields@,
            r.is_negated() == negated,
    {
        HeaderFilter { fields, negated }
    }

    /// Renders the filter as a protocol field-selection expression; `None`
    /// exactly when no field is selected.
    pub fn filter_str(&self) -> (r: Option<String>)
        ensures
            match r {
                Some(s) => render_filter(self.tags(), self.is_negated()) == Some(s@),
                None => render_filter(self.tags(), self.is_negated()) is None,
            },
    {
        let mut has_subject = false;
        let mut has_to = false;
        let mut has_from = false;
        let mut has_date = false;
        let mut i: usize = 0;
        while i < self.fields.len()
            invariant
                0 <= i <= self.fields_seq().len(),
                has_subject <==> (exists|j: int|
                    0 <= j < i && (#[trigger] self.fields_seq()[j]) is Subject),
                has_to <==> (exists|j: int| 0 <= j < i && (#[trigger] self.fields_seq()[j]) is To),
                has_from <==> (exists|j: int|
                    0 <= j < i && (#[trigger] self.fields_seq()[j]) is From),
                has_date <==> (exists|j: int|
                    0 <= j < i && (#[trigger] self.fields_seq()[j]) is Date),
            decreases self.fields_seq().len() - i,
        {
            match &self.fields[i] {
                HeaderField::Subject(_) => {
                    has_subject = true;
                },
                HeaderField::To(_) => {
                    has_to = true;
                },
                HeaderField::From(_) => {
                    has_from = true;
                },
                HeaderField::Date(_) => {
                    has_date = true;
                },
            }
            i += 1;
        }
        let ghost t = self.tags();
        proof {
            assert(t.subject == has_subject && t.to == has_to && t.from == has_from && t.date
                == has_date);
        }
        if !has_subject && !has_to && !has_from && !has_date {
            return None;
        }
        proof {
            reveal_strlit("SUBJECT");
            reveal_strlit("TO");
            reveal_strlit("FROM");
            reveal_strlit("DATE");
        }
        let mut out = String::new();
        out.append("HEADER.FIELDS");
        if self.negated {
            out.append(".NOT");
        }
        out.append(" (");
        let ghost prefix = out@;
        let ghost s0 = Seq::<char>::empty();
        let ghost s1 = if t.subject {
            append_tag(s0, "SUBJECT"@)
        } else {
            s0
        };
        let ghost s2 = if t.to {
            append_tag(s1, "TO"@)
        } else {
            s1
        };
        let ghost s3 = if t.from {
            append_tag(s2, "FROM"@)
        } else {
            s2
        };
        let ghost s4 = if t.date {
            append_tag(s3, "DATE"@)
        } else {
            s3
        };
        let mut first = true;
        if has_subject {
            if !first {
                out.append(", ");
            }
            out.append("SUBJECT");
            first = false;
        }
        proof {
            assert(out@ =~= prefix + s1);
            assert(first == (s1.len() == 0));
        }
        if has_to {
            if !first {
                out.append(", ");
            }
            out.append("TO");
            first = false;
        }
        proof {
            assert(out@ =~= prefix + s2);
            assert(first == (s2.len() == 0));
        }
        if has_from {
            if !first {
                out.append(", ");
            }
            out.append("FROM");
            first = false;
        }
        proof {
            assert(out@ =~= prefix + s3);
            assert(first == (s3.len() == 0));
        }
        if has_date {
            if !first {
                out.append(", ");
            }
            out.append("DATE");
            first = false;
        }
        proof {
            assert(out@ =~= prefix + s4);
        }
        out.append(")");
        proof {
            assert(s4 == tag_list(t));
            assert(out@ =~= "HEADER.FIELDS"@ + (if self.negated {
                ".NOT"@
            } else {
                Seq::<char>::empty()
            }) + " ("@ + tag_list(t) + ")"@);
        }
        Some(out)
    }
}

/// Law: rendering is deterministic in the selector set. Two selector
/// sequences that mention the same tags render identically under the same
/// negation flag, whatever their order, multiplicity or predicate values.
pub proof fn lemma_filter_str_deterministic(
    a: Seq<HeaderField>,
    b: Seq<HeaderField>,
    negated: bool,
)
    requires
        tags_of(a) == tags_of(b),
    ensures
        render_filter(tags_of(a), negated) == render_filter(tags_of(b), negated),
{
}

/// Law: an empty selector set renders no expression at all, negated or not.
pub proof fn lemma_empty_filter_renders_none(negated: bool)
    ensures
        render_filter(tags_of(Seq::<HeaderField>::empty()), negated) is None,
{
}

} // verus!
