//! Query descriptors: an immutable pairing of SQL text with its positional
//! parameter bindings, ready to be executed by a database driver.

use vstd::prelude::*;

verus! {

/// One positional parameter bound into a SQL statement.
#[derive(Debug)]
pub enum Param {
    /// An integer binding, used for row ids.
    Int(i64),
    /// A nullable text binding; `None` binds SQL NULL.
    OptText(Option<String>),
}

/// The mathematical value of one parameter.
#[verifier::ext_equal]
pub enum ParamView {
    Int(int),
    OptText(Option<Seq<char>>),
}

impl View for Param {
    type V = ParamView;

    open spec fn view(&self) -> ParamView {
        match self {
            Param::Int(i) => ParamView::Int(*i as int),
            Param::OptText(t) => ParamView::OptText(
                match t {
                    Some(s) => Some(s@),
                    None => None,
                },
            ),
        }
    }
}

/// A SQL statement together with the values bound to its placeholders,
/// in placeholder order. Building one performs no I/O.
#[derive(Debug)]
pub struct QueryDescriptor {
    pub sql: String,
    pub params: Vec<Param>,
}

impl Clone for Param {
    fn clone(&self) -> (r: Self)
        ensures
            r@ == self@,
    {
        match self {
            Param::Int(i) => Param::Int(*i),
            Param::OptText(t) => Param::OptText(
                match t {
                    Some(s) => Some(s.clone()),
                    None => None,
                },
            ),
        }
    }
}

/// The mathematical value of a query descriptor.
#[verifier::ext_equal]
pub struct QueryDescriptorView {
    pub sql: Seq<char>,
    pub params: Seq<ParamView>,
}

/// The views of bound parameters, in placeholder order.
pub open spec fn params_view(params: Seq<Param>) -> Seq<ParamView> {
    params.map_values(|p: Param| p@)
}

impl View for QueryDescriptor {
    type V = QueryDescriptorView;

    open spec fn view(&self) -> QueryDescriptorView {
        QueryDescriptorView {
            sql: self.sql@,
            params: params_view(self.params@),
        }
    }
}

impl Clone for QueryDescriptor {
    fn clone(&self) -> (r: Self)
        ensures
            r@ == self@,
    {
        let mut params: Vec<Param> = Vec::new();
        let mut i: usize = 0;
        while i < self.params.len()
            invariant
                i <= self.params@.len(),
                params_view(params@) =~~= params_view(self.params@).take(i as int),
            decreases self.params@.len() - i,
        {
            let ghost pre = params@;
            let c = self.params[i].clone();
            let ghost gc = c;
            params.push(c);
            i = i + 1;
            proof {
                assert(params_view(pre.push(gc)) =~~= params_view(pre).push(gc@));
                assert(params_view(self.params@).take(i as int - 1).push(
                    params_view(self.params@)[i as int - 1],
                ) =~= params_view(self.params@).take(i as int));
            }
        }
        proof {
            assert(params_view(self.params@).take(self.params@.len() as int) =~= params_view(
                self.params@,
            ));
        }
        QueryDescriptor { sql: self.sql.clone(), params }
    }
}

} // verus!
