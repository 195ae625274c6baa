use vstd::prelude::*;
use crate::model::{RemoteCustomer, CustomerModel};
use crate::reconcile::customer_views;

verus! {

/// Accumulates the customer pages of one paginated fetch, in page order. The
/// transport lives outside; this holds the sequencing rule: every page's
/// customers are appended, in order, and the result is their concatenation.
pub struct CustomerFetch {
    customers: Vec<RemoteCustomer>,
}

impl View for CustomerFetch {
    type V = Seq<CustomerModel>;

    closed spec fn view(&self) -> Seq<CustomerModel> {
        customer_views(self.customers@)
    }
}

impl CustomerFetch {
    /// An accumulation with no pages yet.
    pub fn new() -> (r: CustomerFetch)
        ensures
            r@ == Seq::<CustomerModel>::empty(),
    {
        let r = CustomerFetch { customers: Vec::new() };
        proof {
            assert(r@ =~= Seq::<CustomerModel>::empty());
        }
        r
    }

    /// Appends one page's customers, keeping page order and in-page order.
    pub fn add_page(&mut self, page: Vec<RemoteCustomer>)
        ensures
            final(self)@ == old(self)@ + customer_views(page@),
    {
        let ghost before = self.customers@;
        let ghost added = page@;
        let mut page = page;
        self.customers.append(&mut page);
        proof {
            assert(self@ =~= customer_views(before) + customer_views(added));
        }
    }

    /// How many customers have accumulated, for the fetch report.
    pub fn count(&self) -> (n: usize)
        ensures
            n == self@.len(),
    {
        self.customers.len()
    }

    /// The accumulated customer list.
    pub fn into_customers(self) -> (r: Vec<RemoteCustomer>)
        ensures
            customer_views(r@) == self@,
    {
        self.customers
    }
}

/// The pagination decision: a response that carries a continuation cursor has
/// more pages; one without ends the fetch.
pub fn fetch_continues(cursor: &Option<String>) -> (r: bool)
    ensures
        r == (cursor is Some),
{
    cursor.is_some()
}

} // verus!
