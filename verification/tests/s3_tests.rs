use trokk::s3::{
    build_object_key, build_representation_key, format_usize, pad5, plan_batch_upload,
    plan_directory_upload, plan_transfer, BatchGroup, RepresentationRole, MULTIPART_PART_SIZE,
};

#[test]
fn test_single_request_below_threshold() {
    for size in [0u64, 1, 4096, MULTIPART_PART_SIZE - 1] {
        let plan = plan_transfer(size);
        assert!(!plan.multipart);
        assert_eq!(plan.part_sizes, vec![size]);
    }
}

#[test]
fn test_multipart_at_and_above_threshold() {
    let t = MULTIPART_PART_SIZE;

    let plan = plan_transfer(t);
    assert!(plan.multipart);
    assert_eq!(plan.part_sizes, vec![t]);

    let plan = plan_transfer(t + 1);
    assert!(plan.multipart);
    assert_eq!(plan.part_sizes, vec![t, 1]);

    // two and a half parts round up to three
    let size = 2 * t + t / 2;
    let plan = plan_transfer(size);
    assert!(plan.multipart);
    assert_eq!(plan.part_sizes.len(), ((size + t - 1) / t) as usize);
    assert_eq!(plan.part_sizes, vec![t, t, t / 2]);
    assert_eq!(plan.part_sizes.iter().sum::<u64>(), size);
}

#[test]
fn test_pad5_pads_short_numbers_only() {
    assert_eq!(format_usize(0), "0");
    assert_eq!(format_usize(90210), "90210");
    assert_eq!(pad5(1), "00001");
    assert_eq!(pad5(42), "00042");
    assert_eq!(pad5(99999), "99999");
    assert_eq!(pad5(123456), "123456");
}

#[test]
fn test_object_key_layout() {
    assert_eq!(
        build_object_key("newspaper", "ob-123", 7, "tif"),
        "newspaper/ob-123/ob-123_00007.tif"
    );
    assert_eq!(
        build_representation_key("newspaper", "ob-123", RepresentationRole::Primary, 12, "jpg"),
        "newspaper/ob-123/representations/primary/ob-123_00012.jpg"
    );
    assert_eq!(
        build_representation_key("book", "x", RepresentationRole::Access, 1, "png"),
        "book/x/representations/access/x_00001.png"
    );
}

#[test]
fn test_plan_directory_upload_numbers_pages_in_order() {
    let files = vec![
        "/dir/scan_a.tif".to_string(),
        "/dir/scan_b.tif".to_string(),
        "/dir/scan_c.jpg".to_string(),
    ];
    let jobs = plan_directory_upload("/dir", &files, "obj9", "newspaper").unwrap();
    assert_eq!(jobs.len(), 3);
    assert_eq!(jobs[0].key, "newspaper/obj9/obj9_00001.tif");
    assert_eq!(jobs[1].key, "newspaper/obj9/obj9_00002.tif");
    assert_eq!(jobs[2].key, "newspaper/obj9/obj9_00003.jpg");
    for (i, job) in jobs.iter().enumerate() {
        assert_eq!(job.path, files[i]);
        assert_eq!(job.progress.directory, "/dir");
        assert_eq!(job.progress.page_nr, i + 1);
        assert_eq!(job.progress.total_pages, 3);
    }
}

#[test]
fn test_plan_directory_upload_requires_extensions() {
    let files = vec!["/dir/good.tif".to_string(), "/dir/noextension".to_string()];
    let err = plan_directory_upload("/dir", &files, "o", "m").unwrap_err();
    assert_eq!(err, "Missing file extension");
}

#[test]
fn test_plan_batch_upload_roles_and_running_progress() {
    let groups = vec![
        BatchGroup {
            object_id: "obj1".to_string(),
            primary: vec!["/a/p1.tif".to_string(), "/a/p2.tif".to_string()],
            access: vec!["/a/acc1.jpg".to_string()],
        },
        BatchGroup {
            object_id: "obj2".to_string(),
            primary: vec!["/b/p1.tif".to_string()],
            access: vec![],
        },
    ];
    let jobs = plan_batch_upload(&groups, "newspaper").unwrap();
    assert_eq!(jobs.len(), 4);
    assert_eq!(jobs[0].key, "newspaper/obj1/representations/primary/obj1_00001.tif");
    assert_eq!(jobs[1].key, "newspaper/obj1/representations/primary/obj1_00002.tif");
    // page numbering restarts for the access role
    assert_eq!(jobs[2].key, "newspaper/obj1/representations/access/obj1_00001.jpg");
    assert_eq!(jobs[3].key, "newspaper/obj2/representations/primary/obj2_00001.tif");
    for (i, job) in jobs.iter().enumerate() {
        assert_eq!(job.progress.page_nr, i + 1);
        assert_eq!(job.progress.total_pages, 4);
    }
    assert_eq!(jobs[0].progress.directory, "/a");
    assert_eq!(jobs[3].progress.directory, "/b");
}

#[test]
fn test_plan_batch_upload_requires_extensions() {
    let groups = vec![BatchGroup {
        object_id: "obj1".to_string(),
        primary: vec!["/a/p1".to_string()],
        access: vec![],
    }];
    let err = plan_batch_upload(&groups, "m").unwrap_err();
    assert_eq!(err, "Missing file extension");
}
