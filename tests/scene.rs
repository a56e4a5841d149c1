use ray_tracer_challenge::scene::ObjectArena;

#[test]
fn ids_are_handed_out_in_order() {
    let mut arena: ObjectArena<&str> = ObjectArena::new();
    assert_eq!(arena.new_id(), 0);
    assert_eq!(arena.new_id(), 1);
    assert_eq!(arena.next_id(), 2);
}

#[test]
fn objects_keep_the_order_they_were_added_in() {
    let mut arena = ObjectArena::new();
    arena.add_object('a');
    arena.add_object('b');
    assert_eq!(arena.objects(), &vec!['a', 'b']);
    assert_eq!(arena.next_id(), 0);
}

#[test]
fn objects_change_in_place() {
    let mut arena = ObjectArena::new();
    arena.add_object(1);
    arena.add_object(2);
    *arena.get_object_mut(1) = 20;
    assert_eq!(arena.objects(), &vec![1, 20]);
}
