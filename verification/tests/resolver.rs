use stockpot::domain::recipe::Error;
use stockpot::store::planner::{first_naming, holds_id, plan_children, Slot};
use stockpot::store::resolver::{names_are_given, ReferenceTable};

fn names(list: &[&str]) -> Vec<String> {
    list.iter().map(|n| n.to_string()).collect()
}

#[test]
fn resolving_twice_gives_the_same_ids() {
    let mut table = ReferenceTable::new();
    assert_eq!(table.resolve(&names(&["carrots", "butter", "carrots"])), Ok(vec![1, 2, 1]));
    assert_eq!(table.len(), 2);
    assert_eq!(table.resolve(&names(&["carrots", "butter", "carrots"])), Ok(vec![1, 2, 1]));
    assert_eq!(table.len(), 2);
    for _ in 0..5 {
        assert_eq!(table.resolve(&names(&["butter"])), Ok(vec![2]));
    }
    assert_eq!(table.len(), 2);
    assert_eq!(table.resolve(&names(&["salt", "butter"])), Ok(vec![3, 2]));
    assert_eq!(table.find(&"carrots".to_string()), Some(1));
    assert_eq!(table.find(&"salt".to_string()), Some(3));
    assert_eq!(table.find(&"pepper".to_string()), None);
    assert_eq!(table.resolve(&names(&[])), Ok(vec![]));
    assert_eq!(table.len(), 3);
}

#[test]
fn an_empty_name_is_refused_and_nothing_is_stored() {
    let mut table = ReferenceTable::new();
    assert_eq!(table.resolve(&names(&["carrots", "", "butter"])), Err(Error::InvalidArgument));
    assert_eq!(table.len(), 0);
    assert_eq!(table.find(&"carrots".to_string()), None);
    assert!(names_are_given(&names(&["a", "b"])));
    assert!(names_are_given(&names(&[])));
    assert!(!names_are_given(&names(&["a", ""])));
    let copy = table.clone();
    assert_eq!(copy.len(), 0);
}

#[test]
fn names_differ_by_case_and_space() {
    let mut table = ReferenceTable::new();
    assert_eq!(table.resolve(&names(&["Salt", "salt", " salt"])), Ok(vec![1, 2, 3]));
}

#[test]
fn a_plan_keeps_adds_and_drops() {
    let plan = plan_children(&vec![4, 7, 9], &vec![Some(9), None, Some(5), Some(4)], 10).unwrap();
    assert_eq!(plan.updates, vec![Slot { id: 4, source: 3 }, Slot { id: 9, source: 0 }]);
    assert_eq!(plan.inserts, vec![Slot { id: 10, source: 1 }, Slot { id: 11, source: 2 }]);
    assert_eq!(plan.deletes, vec![7]);
}

#[test]
fn a_plan_for_nothing_stored_adds_everything() {
    let plan = plan_children(&vec![], &vec![None, Some(3), Some(3)], 1).unwrap();
    assert_eq!(plan.updates, vec![]);
    assert_eq!(
        plan.inserts,
        vec![Slot { id: 1, source: 0 }, Slot { id: 2, source: 1 }, Slot { id: 3, source: 2 }]
    );
    assert_eq!(plan.deletes, vec![]);
    let empty = plan_children(&vec![1, 2], &vec![], 3).unwrap();
    assert_eq!(empty.updates, vec![]);
    assert_eq!(empty.inserts, vec![]);
    assert_eq!(empty.deletes, vec![1, 2]);
}

#[test]
fn there_is_no_plan_for_a_child_named_twice_or_without_ids_left() {
    assert!(plan_children(&vec![1, 2], &vec![Some(2), Some(1), Some(2)], 3).is_none());
    assert!(plan_children(&vec![1], &vec![None], 2_147_483_648).is_none());
    let last = plan_children(&vec![1], &vec![None], 2_147_483_647).unwrap();
    assert_eq!(last.inserts, vec![Slot { id: 2_147_483_647, source: 0 }]);
    assert!(plan_children(&vec![1], &vec![None, None], 2_147_483_647).is_none());
    let none_new = plan_children(&vec![1], &vec![Some(1)], 2_147_483_648).unwrap();
    assert_eq!(none_new.updates, vec![Slot { id: 1, source: 0 }]);
}

#[test]
fn ids_are_found_where_they_stand() {
    assert!(holds_id(&vec![3, 5], 5));
    assert!(!holds_id(&vec![3, 5], 4));
    assert_eq!(first_naming(&vec![None, Some(2), Some(2)], 2, 0), Some(1));
    assert_eq!(first_naming(&vec![None, Some(2), Some(2)], 2, 2), Some(2));
    assert_eq!(first_naming(&vec![None, Some(2), Some(2)], 2, 3), None);
    assert_eq!(first_naming(&vec![None, Some(2)], 1, 0), None);
}
