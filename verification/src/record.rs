//! Employee records and their canonical text rendering, the unit of
//! embedding and the context handed to the chat service.

use vstd::prelude::*;

use crate::decimal::{dec_digits, u32_to_dec};

verus! {

/// One employee, as loaded from one well-formed row of the input file.
#[derive(Clone, Debug, PartialEq, Eq)]
pub struct Record {
    pub first_name: String,
    pub last_name: String,
    pub email: String,
    pub role: String,
    pub salary: u32,
}

/// The mathematical value of a [`Record`]: its four text fields as
/// character sequences and its salary.
pub struct RecordView {
    pub first_name: Seq<char>,
    pub last_name: Seq<char>,
    pub email: Seq<char>,
    pub role: Seq<char>,
    pub salary: u32,
}

impl View for Record {
    type V = RecordView;

    open spec fn view(&self) -> RecordView {
        RecordView {
            first_name: self.first_name@,
            last_name: self.last_name@,
            email: self.email@,
            role: self.role@,
            salary: self.salary,
        }
    }
}

impl DeepView for Record {
    type V = RecordView;

    open spec fn deep_view(&self) -> RecordView {
        self.view()
    }
}

/// The canonical text rendering of a record: all five fields, each
/// under its label, one per line, in fixed order.
pub open spec fn spec_render(r: RecordView) -> Seq<char> {
    "First name: "@ + r.first_name + "\nLast name: "@ + r.last_name + "\nEmail: "@ + r.email
        + "\nRole: "@ + r.role + "\nSalary: "@ + dec_digits(r.salary as nat)
}

/// Rendering is deterministic: the text depends on the record's
/// fields alone, so equal records always render to equal text.
pub proof fn lemma_render_deterministic(a: RecordView, b: RecordView)
    requires
        a == b,
    ensures
        spec_render(a) == spec_render(b),
{
}

impl Record {
    /// The canonical text rendering, labeled field per line.
    pub fn render(&self) -> (r: String)
        ensures
            r@ == spec_render(self@),
    {
        let mut s = String::new();
        s.append("First name: ");
        s.append(self.first_name.as_str());
        s.append("\nLast name: ");
        s.append(self.last_name.as_str());
        s.append("\nEmail: ");
        s.append(self.email.as_str());
        s.append("\nRole: ");
        s.append(self.role.as_str());
        s.append("\nSalary: ");
        let sal = u32_to_dec(self.salary);
        s.append(sal.as_str());
        proof {
            assert(s@ =~= spec_render(self@));
        }
        s
    }
}

} // verus!
