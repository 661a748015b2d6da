use neuro_evolution::Chromosome;

fn chromosome() -> Chromosome<f32> {
    Chromosome::from_vec(vec![3.0, 1.0, 2.0])
}

#[test]
fn len_counts_the_genes() {
    assert_eq!(chromosome().len(), 3);
    assert_eq!(Chromosome::<f32>::from_vec(vec![]).len(), 0);
}

#[test]
fn iter_yields_the_genes_in_order() {
    let chromosome = chromosome();
    let genes: Vec<&f32> = chromosome.iter().collect();
    assert_eq!(genes, vec![&3.0, &1.0, &2.0]);
}

#[test]
fn iter_mut_writes_through() {
    let mut chromosome = chromosome();
    for gene in chromosome.iter_mut() {
        *gene *= 10.0;
    }
    assert_eq!(chromosome.len(), 3);
    assert_eq!(chromosome.into_vec(), vec![30.0, 10.0, 20.0]);
}

#[test]
fn index_reads_one_gene() {
    let chromosome = chromosome();
    assert_eq!(chromosome[0], 3.0);
    assert_eq!(chromosome[1], 1.0);
    assert_eq!(chromosome[2], 2.0);
}

#[test]
fn as_slice_shows_the_genes() {
    assert_eq!(chromosome().as_slice(), &[3.0, 1.0, 2.0]);
}

#[test]
fn from_vec_and_into_vec_are_inverse() {
    let genes = vec![0.5f32, -0.25, 8.0, 0.0];
    assert_eq!(Chromosome::from_vec(genes.clone()).into_vec(), genes);
}

#[test]
fn genes_need_not_be_numbers() {
    let chromosome = Chromosome::from_vec(vec!['a', 'b']);
    assert_eq!(chromosome.len(), 2);
    assert_eq!(chromosome[1], 'b');
}

#[test]
fn set_replaces_one_gene() {
    let mut chromosome = chromosome();
    chromosome.set(1, 9.0);
    assert_eq!(chromosome.len(), 3);
    assert_eq!(chromosome.as_slice(), &[3.0, 9.0, 2.0]);
    chromosome.set(0, -1.0);
    chromosome.set(2, -2.0);
    assert_eq!(chromosome.into_vec(), vec![-1.0, 9.0, -2.0]);
}

#[test]
fn clone_is_a_genome_of_its_own() {
    let first = chromosome();
    let mut second = first.clone();
    second.set(0, 0.0);
    assert_eq!(first.as_slice(), &[3.0, 1.0, 2.0]);
    assert_eq!(second.as_slice(), &[0.0, 1.0, 2.0]);
}
