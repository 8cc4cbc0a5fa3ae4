use stateless_architecture::{Json, MockMesh, OpType, Operation};

#[test]
fn mock_mesh_broadcasts() {
    let mut mesh = MockMesh::new();
    mesh.broadcast(Operation {
        op_type: OpType::Insert,
        target: "/doc/title".into(),
        value: Some(Json::from_str_value("Hello")),
        lamport: 1,
        origin: "peer-1".into(),
    });
    assert_eq!(mesh.log.len(), 1);
}

#[test]
fn mesh_sync_roundtrip() {
    let mut mesh = MockMesh::new();

    mesh.broadcast(Operation {
        op_type: OpType::Insert,
        target: "/doc/title".into(),
        value: Some(Json::from_str_value("Hello Mesh")),
        lamport: 1,
        origin: "peer-1".into(),
    });

    let op = mesh.log.first().unwrap();
    assert_eq!(op.target, "/doc/title");
    assert_eq!(op.origin, "peer-1");
    assert_eq!(op.lamport, 1);
}

#[test]
fn broadcast_keeps_order() {
    let mut mesh = MockMesh::default();
    for (i, t) in [OpType::Insert, OpType::Update, OpType::Delete, OpType::Move].iter().enumerate() {
        mesh.broadcast(Operation {
            op_type: *t,
            target: format!("/t/{}", i),
            value: None,
            lamport: i as u64,
            origin: "p".into(),
        });
    }
    let lamports: Vec<u64> = mesh.log.iter().map(|o| o.lamport).collect();
    assert_eq!(lamports, vec![0, 1, 2, 3]);
    assert_eq!(mesh.log[3].op_type, OpType::Move);
}
