//! The issue report and the rendering of its body text.
//!
//! A report is a required title and four optional descriptive
//! fields. The body is the concatenation of one labeled section per
//! present field, in a fixed order; an absent field contributes
//! nothing, not even an empty section.

use vstd::prelude::*;

verus! {

/// A bug or feature report, built once per invocation and consumed
/// by the URL builder.
pub struct IssueReport {
    pub title: String,
    pub expected_behavior: Option<String>,
    pub actual_behavior: Option<String>,
    pub steps_to_reproduce: Option<String>,
    pub additional_environment: Option<String>,
}

/// The mathematical content of an [`IssueReport`]: each text field as
/// a character sequence.
pub ghost struct ReportView {
    pub title: Seq<char>,
    pub expected_behavior: Option<Seq<char>>,
    pub actual_behavior: Option<Seq<char>>,
    pub steps_to_reproduce: Option<Seq<char>>,
    pub additional_environment: Option<Seq<char>>,
}

impl View for IssueReport {
    type V = ReportView;

    open spec fn view(&self) -> ReportView {
        ReportView {
            title: self.title@,
            expected_behavior: self.expected_behavior.deep_view(),
            actual_behavior: self.actual_behavior.deep_view(),
            steps_to_reproduce: self.steps_to_reproduce.deep_view(),
            additional_environment: self.additional_environment.deep_view(),
        }
    }
}

/// One labeled section of the body: the label line, the field text
/// and a blank line when the field is present; nothing when it is
/// absent.
pub open spec fn section_text(label: Seq<char>, value: Option<Seq<char>>) -> Seq<char> {
    match value {
        Some(v) => label + v + "\n\n"@,
        None => Seq::empty(),
    }
}

/// The body text of a report: the sections of the present fields in
/// fixed order — expected behavior, actual behavior, steps to
/// reproduce, additional environment details.
pub open spec fn body_text(r: ReportView) -> Seq<char> {
    section_text("### Expected behavior\n"@, r.expected_behavior) + section_text(
        "### Actual behavior\n"@,
        r.actual_behavior,
    ) + section_text("### Steps to reproduce\n"@, r.steps_to_reproduce) + section_text(
        "### Additional environment details\n"@,
        r.additional_environment,
    )
}

fn append_section(body: &mut String, label: &str, value: &Option<String>)
    ensures
        final(body)@ == old(body)@ + section_text(label@, value.deep_view()),
{
    match value {
        Some(v) => {
            body.append(label);
            body.append(v.as_str());
            body.append("\n\n");
            proof {
                assert(body@ =~= old(body)@ + section_text(label@, value.deep_view()));
            }
        },
        None => {
            proof {
                assert(body@ =~= old(body)@ + section_text(label@, value.deep_view()));
            }
        },
    }
}

impl IssueReport {
    /// The report body: one labeled section per present optional
    /// field, in fixed order; absent fields are omitted entirely.
    pub fn render_body(&self) -> (r: String)
        ensures
            r@ == body_text(self@),
    {
        let mut body = String::new();
        append_section(&mut body, "### Expected behavior\n", &self.expected_behavior);
        append_section(&mut body, "### Actual behavior\n", &self.actual_behavior);
        append_section(&mut body, "### Steps to reproduce\n", &self.steps_to_reproduce);
        append_section(
            &mut body,
            "### Additional environment details\n",
            &self.additional_environment,
        );
        proof {
            assert(body@ =~= body_text(self@));
        }
        body
    }
}

/// The body is one section per field, in fixed order. An absent
/// field's section is empty — the body omits it entirely — and a
/// present field's section is exactly its label line, its text and a
/// blank line.
pub proof fn lemma_body_composition(r: ReportView)
    ensures
        body_text(r) == section_text("### Expected behavior\n"@, r.expected_behavior)
            + section_text("### Actual behavior\n"@, r.actual_behavior) + section_text(
            "### Steps to reproduce\n"@,
            r.steps_to_reproduce,
        ) + section_text("### Additional environment details\n"@, r.additional_environment),
        forall|label: Seq<char>|
            #[trigger] section_text(label, Option::<Seq<char>>::None) == Seq::<char>::empty(),
        forall|label: Seq<char>, v: Seq<char>|
            #[trigger] section_text(label, Some(v)) == label + v + "\n\n"@,
{
}

} // verus!
