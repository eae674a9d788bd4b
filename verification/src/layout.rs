//! The extraction pipeline: layouts made of components, and the parser that
//! picks the one layout matching a page and extracts its facts.

use crate::requester::{RequestView, SimpleRequest};
use crate::text::string_views;
use std::sync::Arc;
use vstd::prelude::*;
use vstd::string::*;

verus! {

/// One strategy of a layout: it recognises a page content and extracts facts
/// from it. Both are functions of their arguments alone.
pub trait LayoutComponent: Sync + Send {
    /// The content tree of a page.
    type Content;

    /// The facts extracted from a page.
    type Extracted: View;

    /// Whether the component matches `content`.
    spec fn matches_spec(&self, content: &Self::Content) -> bool;

    /// The facts that the component finds in `content`, fetched by `request`.
    spec fn extract_spec(&self, request: RequestView, content: &Self::Content) -> Seq<
        <Self::Extracted as View>::V,
    >;

    /// The component's name.
    spec fn label(&self) -> Seq<char>;

    fn matches(&self, content: &Self::Content) -> (b: bool)
        ensures
            b == self.matches_spec(content),
    ;

    fn extract(&self, request: &SimpleRequest, content: &Self::Content) -> (facts: Vec<Self::Extracted>)
        ensures
            fact_views(facts@) == self.extract_spec(request@, content),
    ;

    fn name(&self) -> (name: String)
        ensures
            name@ == self.label(),
    ;
}

/// The views of a sequence of facts, in order.
pub open spec fn fact_views<Extracted: View>(facts: Seq<Extracted>) -> Seq<Extracted::V> {
    facts.map_values(|e: Extracted| e@)
}

/// One recognised page shape: an ordered list of components.
pub struct Layout<C: LayoutComponent> {
    pub components: Vec<C>,
}

impl<C: LayoutComponent> Layout<C> {
    /// A layout matches a content when all its components match it.
    pub open spec fn matches_spec(&self, content: &C::Content) -> bool {
        forall|i: int|
            0 <= i < self.components@.len() ==> (#[trigger] self.components@[i]).matches_spec(content)
    }

    /// The facts of the first `n` components, in the order of the components.
    pub open spec fn extract_upto(&self, request: RequestView, content: &C::Content, n: nat) -> Seq<<C::Extracted as View>::V>
        decreases n,
    {
        if n == 0 {
            Seq::empty()
        } else {
            self.extract_upto(request, content, (n - 1) as nat) + self.components@[n - 1].extract_spec(
                request,
                content,
            )
        }
    }

    /// The facts of the layout: those of its components, one after the
    /// other, in the order of the components.
    pub open spec fn extract_spec(&self, request: RequestView, content: &C::Content) -> Seq<<C::Extracted as View>::V> {
        self.extract_upto(request, content, self.components@.len())
    }

    /// The names of the first `n` components, each followed by a comma and a
    /// space.
    pub open spec fn label_upto(&self, n: nat) -> Seq<char>
        decreases n,
    {
        if n == 0 {
            Seq::empty()
        } else {
            self.label_upto((n - 1) as nat) + self.components@[n - 1].label() + seq![',', ' ']
        }
    }

    /// The layout's name: the names of its components, each followed by a
    /// comma and a space.
    pub open spec fn label(&self) -> Seq<char> {
        self.label_upto(self.components@.len())
    }

    /// A layout without components, which matches every content and
    /// extracts nothing.
    pub fn new() -> (layout: Self)
        ensures
            layout.components@.len() == 0,
    {
        Layout { components: Vec::new() }
    }

    /// What lies before the end of a layout does not depend on what is
    /// added at its end.
    proof fn prefix_is_kept(&self, longer: &Self, request: RequestView, content: &C::Content, n: nat)
        requires
            n <= self.components@.len() <= longer.components@.len(),
            forall|i: int| 0 <= i < self.components@.len() ==> self.components@[i] == longer.components@[i],
        ensures
            longer.extract_upto(request, content, n) == self.extract_upto(request, content, n),
            longer.label_upto(n) == self.label_upto(n),
        decreases n,
    {
        if n > 0 {
            self.prefix_is_kept(longer, request, content, (n - 1) as nat);
        }
    }

    /// Adds `component` at the end of the layout. The layout then matches
    /// where it matched before and `component` matches too, and extracts
    /// what it extracted before followed by the facts of `component`.
    pub fn push(&mut self, component: C)
        ensures
            final(self).components@ == old(self).components@.push(component),
            forall|content: &C::Content| #[trigger]
                final(self).matches_spec(content) == (old(self).matches_spec(content)
                    && component.matches_spec(content)),
            forall|request: RequestView, content: &C::Content| #[trigger]
                final(self).extract_spec(request, content) == old(self).extract_spec(request, content)
                    + component.extract_spec(request, content),
            final(self).label() == old(self).label() + component.label() + seq![',', ' '],
    {
        let ghost before = *self;
        self.components.push(component);
        proof {
            let n = before.components@.len();
            assert forall|content: &C::Content| #[trigger]
                self.matches_spec(content) == (before.matches_spec(content) && component.matches_spec(
                    content,
                )) by {
                if before.matches_spec(content) && component.matches_spec(content) {
                    assert forall|i: int| 0 <= i < self.components@.len() implies (
                    #[trigger] self.components@[i]).matches_spec(content) by {
                        if i < n {
                            assert(before.components@[i].matches_spec(content));
                        }
                    }
                }
                if self.matches_spec(content) {
                    assert(self.components@[n as int].matches_spec(content));
                    assert forall|i: int| 0 <= i < n implies (#[trigger] before.components@[i]).matches_spec(
                        content,
                    ) by {
                        assert(self.components@[i].matches_spec(content));
                    }
                }
            }
            assert forall|request: RequestView, content: &C::Content| #[trigger]
                self.extract_spec(request, content) == before.extract_spec(request, content)
                    + component.extract_spec(request, content) by {
                before.prefix_is_kept(self, request, content, n);
            }
            assert(self.label() == before.label() + component.label() + seq![',', ' ']) by {
                let request: RequestView = arbitrary();
                let content: &C::Content = arbitrary();
                before.prefix_is_kept(self, request, content, n);
            }
        }
    }

    pub fn name(&self) -> (name: String)
        ensures
            name@ == self.label(),
    {
        let mut name = String::new();
        let mut i: usize = 0;
        while i < self.components.len()
            invariant
                i <= self.components@.len(),
                name@ == self.label_upto(i as nat),
            decreases self.components@.len() - i,
        {
            let part = self.components[i].name();
            name.append(part.as_str());
            name.append(", ");
            proof {
                reveal_strlit(", ");
                assert(", "@ =~= seq![',', ' ']);
            }
            i += 1;
        }
        name
    }

    pub fn extract(&self, request: &SimpleRequest, content: &C::Content) -> (facts: Vec<C::Extracted>)
        ensures
            fact_views(facts@) == self.extract_spec(request@, content),
    {
        let mut facts: Vec<C::Extracted> = Vec::new();
        let mut i: usize = 0;
        assert(fact_views(facts@) =~= Seq::empty());
        while i < self.components.len()
            invariant
                i <= self.components@.len(),
                fact_views(facts@) == self.extract_upto(request@, content, i as nat),
            decreases self.components@.len() - i,
        {
            let ghost before = facts@;
            let mut part = self.components[i].extract(request, content);
            let ghost added = part@;
            facts.append(&mut part);
            assert(fact_views(facts@) =~= fact_views(before) + fact_views(added));
            i += 1;
        }
        facts
    }

    pub fn matches(&self, content: &C::Content) -> (b: bool)
        ensures
            b == self.matches_spec(content),
    {
        let mut i: usize = 0;
        while i < self.components.len()
            invariant
                i <= self.components@.len(),
                forall|k: int| 0 <= k < i ==> (#[trigger] self.components@[k]).matches_spec(content),
            decreases self.components@.len() - i,
        {
            if !self.components[i].matches(content) {
                return false;
            }
            i += 1;
        }
        true
    }

    /// Component composition: a layout of two components extracts the facts
    /// of the first followed by the facts of the second.
    pub proof fn extract_of_two(&self, request: RequestView, content: &C::Content)
        requires
            self.components@.len() == 2,
        ensures
            self.extract_spec(request, content) == self.components@[0].extract_spec(request, content)
                + self.components@[1].extract_spec(request, content),
    {
        reveal_with_fuel(Layout::extract_upto, 3);
        assert(Seq::<<C::Extracted as View>::V>::empty() + self.components@[0].extract_spec(request, content)
            =~= self.components@[0].extract_spec(request, content));
    }
}

/// Why a page could not be classified.
#[derive(Debug)]
pub enum ClassificationError {
    /// No layout matched. `considered` names every layout of the catalog.
    Unclassified { considered: Vec<String> },
    /// More than one layout matched. `matching` names those that did.
    Ambiguous { matching: Vec<String> },
}

/// The mathematical value of a [`ClassificationError`].
pub ghost enum ClassificationErrorView {
    Unclassified { considered: Seq<Seq<char>> },
    Ambiguous { matching: Seq<Seq<char>> },
}

impl View for ClassificationError {
    type V = ClassificationErrorView;

    open spec fn view(&self) -> ClassificationErrorView {
        match self {
            ClassificationError::Unclassified { considered } => ClassificationErrorView::Unclassified {
                considered: string_views(considered@),
            },
            ClassificationError::Ambiguous { matching } => ClassificationErrorView::Ambiguous {
                matching: string_views(matching@),
            },
        }
    }
}

/// The catalog of layouts, shared by every extraction.
pub struct LayoutParser<C: LayoutComponent> {
    pub layouts: Arc<Vec<Layout<C>>>,
}

impl<C: LayoutComponent> LayoutParser<C> {
    /// The indices below `n` of the layouts that match `content`, ascending.
    pub open spec fn matching_upto(&self, content: &C::Content, n: nat) -> Seq<int>
        decreases n,
    {
        if n == 0 {
            Seq::empty()
        } else {
            let before = self.matching_upto(content, (n - 1) as nat);
            if self.layouts@[n - 1].matches_spec(content) {
                before.push(n - 1)
            } else {
                before
            }
        }
    }

    /// The indices of the layouts that match `content`, ascending.
    pub open spec fn matching(&self, content: &C::Content) -> Seq<int> {
        self.matching_upto(content, self.layouts@.len())
    }

    /// The names of the layouts at `indices`.
    pub open spec fn labels(&self, indices: Seq<int>) -> Seq<Seq<char>> {
        indices.map_values(|i: int| self.layouts@[i].label())
    }

    /// The names of all layouts, in the order of the catalog.
    pub open spec fn all_labels(&self) -> Seq<Seq<char>> {
        Seq::new(self.layouts@.len(), |i: int| self.layouts@[i].label())
    }

    /// Whether `result` is what the pipeline yields for `content`: the facts
    /// of the one layout that matches, or the error that says that none or
    /// several did.
    pub open spec fn yields(
        &self,
        request: RequestView,
        content: &C::Content,
        result: Result<Vec<C::Extracted>, ClassificationError>,
    ) -> bool {
        let matching = self.matching(content);
        match result {
            Ok(facts) => matching.len() == 1 && fact_views(facts@) == self.layouts@[matching[0]].extract_spec(
                request,
                content,
            ),
            Err(e) => if matching.len() == 0 {
                e@ == (ClassificationErrorView::Unclassified { considered: self.all_labels() })
            } else {
                matching.len() >= 2 && e@ == (ClassificationErrorView::Ambiguous {
                    matching: self.labels(matching),
                })
            },
        }
    }

    /// Looking at more layouts never finds fewer matches.
    proof fn matching_grows(&self, content: &C::Content, n: nat, m: nat)
        requires
            n <= m,
        ensures
            self.matching_upto(content, n).len() <= self.matching_upto(content, m).len(),
        decreases m,
    {
        if n < m {
            self.matching_grows(content, n, (m - 1) as nat);
        }
    }

    /// Exactly one layout may match. Where two layouts of the catalog match
    /// a content, the pipeline yields no facts: its only result is the error
    /// that names the matching layouts.
    pub proof fn two_matches_are_ambiguous(
        &self,
        request: RequestView,
        content: &C::Content,
        i: int,
        j: int,
        result: Result<Vec<C::Extracted>, ClassificationError>,
    )
        requires
            0 <= i < j < self.layouts@.len(),
            self.layouts@[i].matches_spec(content),
            self.layouts@[j].matches_spec(content),
            self.yields(request, content, result),
        ensures
            self.matching(content).len() >= 2,
            result matches Err(e) && e@ == (ClassificationErrorView::Ambiguous {
                matching: self.labels(self.matching(content)),
            }),
    {
        self.matching_grows(content, (i + 1) as nat, j as nat);
        self.matching_grows(content, (j + 1) as nat, self.layouts@.len());
        assert(self.matching_upto(content, (i + 1) as nat).len() >= 1);
        assert(self.matching_upto(content, (j + 1) as nat).len() == self.matching_upto(content, j as nat).len()
            + 1);
    }

    /// Classifies `content` and extracts the facts of its layout. Exactly
    /// one layout must match; the facts are those of its components, in the
    /// order of the components.
    pub fn process(&self, request: &SimpleRequest, content: &C::Content) -> (result: Result<
        Vec<C::Extracted>,
        ClassificationError,
    >)
        ensures
            self.yields(request@, content, result),
    {
        let mut matching: Vec<usize> = Vec::new();
        let mut i: usize = 0;
        let ghost indices = |v: Seq<usize>| v.map_values(|k: usize| k as int);
        assert(indices(matching@) =~= Seq::empty());
        while i < self.layouts.len()
            invariant
                i <= self.layouts@.len(),
                indices(matching@) == self.matching_upto(content, i as nat),
                forall|k: int| 0 <= k < matching@.len() ==> (#[trigger] matching@[k]) < i,
                indices == |v: Seq<usize>| v.map_values(|k: usize| k as int),
            decreases self.layouts@.len() - i,
        {
            let ghost before = matching@;
            if self.layouts[i].matches(content) {
                matching.push(i);
                assert(indices(matching@) =~= indices(before).push(i as int));
            }
            i += 1;
        }
        if matching.len() == 1 {
            let chosen = matching[0];
            assert(indices(matching@)[0] == chosen as int);
            Ok(self.layouts[chosen].extract(request, content))
        } else if matching.len() == 0 {
            let mut considered: Vec<String> = Vec::new();
            let mut j: usize = 0;
            while j < self.layouts.len()
                invariant
                    j <= self.layouts@.len(),
                    considered@.len() == j,
                    forall|k: int| 0 <= k < j ==> (#[trigger] considered@[k])@ == self.layouts@[k].label(),
                decreases self.layouts@.len() - j,
            {
                considered.push(self.layouts[j].name());
                j += 1;
            }
            assert(string_views(considered@) =~= self.all_labels());
            Err(ClassificationError::Unclassified { considered })
        } else {
            let mut names: Vec<String> = Vec::new();
            let mut j: usize = 0;
            while j < matching.len()
                invariant
                    j <= matching@.len(),
                    names@.len() == j,
                    forall|k: int| 0 <= k < matching@.len() ==> (#[trigger] matching@[k]) < self.layouts@.len(),
                    forall|k: int|
                        0 <= k < j ==> (#[trigger] names@[k])@ == self.layouts@[matching@[k] as int].label(),
                decreases matching@.len() - j,
            {
                names.push(self.layouts[matching[j]].name());
                j += 1;
            }
            assert(string_views(names@) =~= self.labels(indices(matching@)));
            Err(ClassificationError::Ambiguous { matching: names })
        }
    }

    /// Whether `result` is what the pipeline makes of `page`: `parser` gives
    /// the content, the one matching layout its facts, and `router` turns
    /// the facts into the requests to follow. A page that cannot be
    /// classified gives the error, and `router` is not called.
    pub open spec fn routes<F: Fn(&str) -> C::Content, Router: FnOnce(Vec<C::Extracted>) -> Vec<SimpleRequest>>(
        &self,
        request: RequestView,
        page: &str,
        parser: F,
        router: Router,
        result: Result<Vec<SimpleRequest>, ClassificationError>,
    ) -> bool {
        exists|content: C::Content, facts: Result<Vec<C::Extracted>, ClassificationError>|
            call_ensures(parser, (page,), content) && #[trigger] self.yields(request, &content, facts) && match facts {
                Ok(found) => result matches Ok(requests) && call_ensures(router, (found,), requests),
                Err(e) => result matches Err(same) && same == e,
            }
    }

    /// Runs the whole pipeline on a page: parses it with `parser`,
    /// classifies the content, extracts the facts of its layout and hands
    /// them to `router`, whose requests are the result.
    pub fn parse<F: Fn(&str) -> C::Content, Router: FnOnce(Vec<C::Extracted>) -> Vec<SimpleRequest>>(
        &self,
        request: &SimpleRequest,
        page: &str,
        parser: F,
        router: Router,
    ) -> (result: Result<Vec<SimpleRequest>, ClassificationError>)
        requires
            call_requires(parser, (page,)),
            forall|facts: Vec<C::Extracted>| call_requires(router, (facts,)),
        ensures
            self.routes(request@, page, parser, router, result),
    {
        let content = parser(page);
        let facts = self.process(request, &content);
        let result = match facts {
            Ok(found) => Ok(router(found)),
            Err(e) => Err(e),
        };
        assert(self.yields(request@, &content, facts));
        result
    }
}

} // verus!
