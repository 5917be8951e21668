use grass::comm::SingleProcessComm;

#[test]
fn single_process_comm_rank_and_size() {
    let comm = SingleProcessComm::new();
    assert_eq!(comm.rank(), 0);
    assert_eq!(comm.size(), 1);
}

#[test]
fn single_process_comm_set_grid() {
    let mut comm = SingleProcessComm::new();
    let decomp = [1, 1, 1];
    let pos = [0, 0, 0];
    comm.set_processor_grid(decomp, pos);
    assert_eq!(comm.processor_decomposition(), decomp);
    assert_eq!(comm.processor_position(), pos);
}

#[test]
fn single_process_comm_records_a_non_trivial_grid() {
    let mut comm = SingleProcessComm::default();
    assert_eq!(comm.processor_decomposition(), [1, 1, 1]);
    assert_eq!(comm.processor_position(), [0, 0, 0]);
    comm.set_processor_grid([2, 3, 4], [1, 2, 3]);
    assert_eq!(comm.processor_decomposition(), [2, 3, 4]);
    assert_eq!(comm.processor_position(), [1, 2, 3]);
}
