use wedding_planner::schema::WeddingPlan;
use wedding_planner::store::AppData;
use wedding_planner::store::Command;
use wedding_planner::store::Response;
use wedding_planner::store::run;
use wedding_planner::StoreError;

#[test]
fn put_then_get_returns_the_bytes() {
    let mut store = AppData::new();
    let bytes: Vec<u8> = vec![0, 1, 2, 255, 7, 0, 42];
    store.save_media_file(String::from("a.jpg"), bytes.clone()).unwrap();
    let back = store.get_media_file_data("a.jpg").unwrap();
    assert_eq!(back, bytes);
}

#[test]
fn put_overwrites_silently() {
    let mut store = AppData::new();
    store.save_media_file(String::from("a.jpg"), vec![1, 2, 3]).unwrap();
    store.save_media_file(String::from("a.jpg"), vec![9]).unwrap();
    assert_eq!(store.get_media_file_data("a.jpg").unwrap(), vec![9]);
}

#[test]
fn delete_of_a_missing_file_succeeds() {
    let mut store = AppData::new();
    assert!(store.delete_media_file("missing.jpg").is_ok());
}

#[test]
fn delete_removes_the_file() {
    let mut store = AppData::new();
    store.save_media_file(String::from("a.jpg"), vec![1]).unwrap();
    store.delete_media_file("a.jpg").unwrap();
    assert_eq!(store.get_media_file_data("a.jpg").unwrap_err(), StoreError::NotFound);
}

#[test]
fn get_of_a_missing_file_is_not_found() {
    let store = AppData::new();
    assert_eq!(store.get_media_file_data("missing.jpg").unwrap_err(), StoreError::NotFound);
}

#[test]
fn info_of_a_missing_file_is_not_found() {
    let store = AppData::new();
    assert_eq!(store.get_media_file_info("missing.jpg").unwrap_err(), StoreError::NotFound);
}

#[test]
fn media_handle_and_info_scenario() {
    let mut store = AppData::new();
    let bytes: Vec<u8> = (0u8..100).collect();
    let handle = store.save_media_file(String::from("photo1.png"), bytes).unwrap();
    assert_eq!(handle, "media/photo1.png");
    let (size, dims) = store.get_media_file_info("photo1.png").unwrap();
    assert_eq!(size, 100);
    assert!(dims.is_none());
}

#[test]
fn media_files_do_not_touch_the_document() {
    let mut store = AppData::new();
    let mut plan = WeddingPlan::default();
    plan.couple_name1 = String::from("Ada");
    store.save_wedding_plan(&plan).unwrap();
    store.save_media_file(String::from("a.bin"), vec![1]).unwrap();
    store.delete_media_file("a.bin").unwrap();
    assert_eq!(store.load_wedding_plan().unwrap().couple_name1, "Ada");
}

#[test]
fn run_dispatches_every_command() {
    let mut store = AppData::new();
    let mut plan = WeddingPlan::default();
    plan.couple_name1 = String::from("Ada");

    match run(&mut store, Command::SavePlan(plan)) {
        Response::PlanSaved(res) => assert!(res.is_ok()),
        _ => panic!("wrong response"),
    }
    match run(&mut store, Command::LoadPlan) {
        Response::Plan(res) => assert_eq!(res.unwrap().couple_name1, "Ada"),
        _ => panic!("wrong response"),
    }
    match run(&mut store, Command::SaveMediaFile(String::from("a.jpg"), vec![5, 6])) {
        Response::MediaSaved(res) => assert_eq!(res.unwrap(), "media/a.jpg"),
        _ => panic!("wrong response"),
    }
    match run(&mut store, Command::GetMediaFileData(String::from("a.jpg"))) {
        Response::MediaData(res) => assert_eq!(res.unwrap(), vec![5, 6]),
        _ => panic!("wrong response"),
    }
    match run(&mut store, Command::GetMediaFileInfo(String::from("a.jpg"))) {
        Response::MediaInfo(res) => {
            let (size, dims) = res.unwrap();
            assert_eq!(size, 2);
            assert!(dims.is_none());
        },
        _ => panic!("wrong response"),
    }
    match run(&mut store, Command::DeleteMediaFile(String::from("a.jpg"))) {
        Response::MediaDeleted(res) => assert!(res.is_ok()),
        _ => panic!("wrong response"),
    }
    match run(&mut store, Command::GetMediaFileData(String::from("a.jpg"))) {
        Response::MediaData(res) => assert_eq!(res.unwrap_err(), StoreError::NotFound),
        _ => panic!("wrong response"),
    }
}
