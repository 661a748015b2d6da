use vstd::prelude::*;

verus! {

/// The iterator that `iter_mut` of a slice returns: it hands out each
/// element once, for writing.
#[verifier::external_type_specification]
#[verifier::external_body]
#[verifier::reject_recursive_types(T)]
pub struct ExIterMut<'a, T: 'a>(core::slice::IterMut<'a, T>);

/// A genome: an ordered sequence of genes whose length never changes.
#[derive(Debug)]
pub struct Chromosome<R> {
    genes: Vec<R>,
}

impl<R> View for Chromosome<R> {
    type V = Seq<R>;

    closed spec fn view(&self) -> Seq<R> {
        self.genes@
    }
}

impl<R> Chromosome<R> {
    /// The genome that holds `genes`, in their order.
    pub fn from_vec(genes: Vec<R>) -> (chromosome: Self)
        ensures
            chromosome@ == genes@,
    {
        Chromosome { genes }
    }

    /// Gives the genes back, in their order.
    pub fn into_vec(self) -> (genes: Vec<R>)
        ensures
            genes@ == self@,
    {
        self.genes
    }

    /// The number of genes.
    pub fn len(&self) -> (len: usize)
        ensures
            len == self@.len(),
    {
        self.genes.len()
    }

    /// An iterator over the genes, in their order.
    pub fn iter(&self) -> (iter: core::slice::Iter<'_, R>)
        ensures
            vstd::std_specs::slice::into_iter_elts(iter) == self@,
    {
        self.genes.iter()
    }

    /// An iterator that hands out every gene once, in order, for writing.
    ///
    /// Trusted: it is `iter_mut` of the slice of genes, through which genes
    /// can be overwritten but neither added nor removed.
    #[verifier::external_body]
    pub fn iter_mut(&mut self) -> (iter: core::slice::IterMut<'_, R>)
        ensures
            final(self)@.len() == old(self)@.len(),
    {
        self.genes.iter_mut()
    }

    /// Puts `gene` in the place of the gene at `index`, which has to be
    /// below the length.
    pub fn set(&mut self, index: usize, gene: R)
        requires
            index < old(self)@.len(),
        ensures
            final(self)@ == old(self)@.update(index as int, gene),
    {
        self.genes[index] = gene;
    }

    /// The genes as a slice.
    pub fn as_slice(&self) -> (genes: &[R])
        ensures
            genes@ == self@,
    {
        self.genes.as_slice()
    }
}

impl<R: Clone> Clone for Chromosome<R> {
    /// A genome of the same length whose genes are clones of the genes of
    /// this one, in their order.
    fn clone(&self) -> (copy: Self)
        ensures
            copy@.len() == self@.len(),
            forall|i: int| 0 <= i < self@.len() ==> cloned::<R>(#[trigger] self@[i], copy@[i]),
    {
        Chromosome { genes: self.genes.clone() }
    }
}

impl<R> core::ops::Index<usize> for Chromosome<R> {
    type Output = R;

    /// The gene at `index`, which has to be below the length.
    fn index(&self, index: usize) -> (gene: &R)
        ensures
            *gene == self@[index as int],
    {
        &self.genes[index]
    }
}

impl<R> vstd::std_specs::core::IndexSpecImpl<usize> for Chromosome<R> {
    open spec fn index_req(&self, index: &usize) -> bool {
        *index < self@.len()
    }
}

} // verus!
