use vstd::prelude::*;

verus! {

/// One column of a listing: its heading, the JSONPath that fills it, and how
/// prominent it is (0: shown in the normal listing, above 0: shown in the wide one).
pub struct PrinterColumn {
    pub name: String,
    pub data_type: String,
    pub json_path: String,
    pub description: String,
    pub format: String,
    pub priority: u8,
}

/// The plain values of a column.
pub struct PrinterColumnView {
    pub name: Seq<char>,
    pub data_type: Seq<char>,
    pub json_path: Seq<char>,
    pub description: Seq<char>,
    pub format: Seq<char>,
    pub priority: u8,
}

pub open spec fn column_view(
    name: Seq<char>,
    data_type: Seq<char>,
    json_path: Seq<char>,
    description: Seq<char>,
    format: Seq<char>,
    priority: u8,
) -> PrinterColumnView {
    PrinterColumnView { name, data_type, json_path, description, format, priority }
}

impl View for PrinterColumn {
    type V = PrinterColumnView;

    open spec fn view(&self) -> PrinterColumnView {
        column_view(
            self.name@,
            self.data_type@,
            self.json_path@,
            self.description@,
            self.format@,
            self.priority,
        )
    }
}

impl PrinterColumn {
    fn make(
        name: &str,
        data_type: &str,
        json_path: &str,
        description: &str,
        format: &str,
        priority: u8,
    ) -> (c: PrinterColumn)
        ensures
            c@ == column_view(name@, data_type@, json_path@, description@, format@, priority),
    {
        PrinterColumn {
            name: String::from_str(name),
            data_type: String::from_str(data_type),
            json_path: String::from_str(json_path),
            description: String::from_str(description),
            format: String::from_str(format),
            priority,
        }
    }
}

/// The columns of a listing, in the order in which they are printed.
pub struct PrinterColumns {
    pub columns: Vec<PrinterColumn>,
}

impl View for PrinterColumns {
    type V = Seq<PrinterColumnView>;

    open spec fn view(&self) -> Seq<PrinterColumnView> {
        self.columns@.map_values(|c: PrinterColumn| c@)
    }
}

/// Whether a column of this priority belongs to the wide listing or the normal one:
/// the wide listing shows the columns of priority above 0, the normal one those of priority 0.
pub open spec fn shown_in(c: PrinterColumnView, wide: bool) -> bool {
    if wide {
        c.priority > 0
    } else {
        c.priority == 0
    }
}

/// The columns that a listing shows, in their order.
pub open spec fn shown_columns(cols: Seq<PrinterColumnView>, wide: bool) -> Seq<PrinterColumnView>
    decreases cols.len(),
{
    if cols.len() == 0 {
        Seq::<PrinterColumnView>::empty()
    } else if shown_in(cols.last(), wide) {
        shown_columns(cols.drop_last(), wide).push(cols.last())
    } else {
        shown_columns(cols.drop_last(), wide)
    }
}

/// The columns for pods.
pub open spec fn pod_columns() -> Seq<PrinterColumnView> {
    seq![
        column_view("Namespace"@, "String"@, "$.metadata.namespace"@, "Namespace of the Pod"@, "String"@, 0),
        column_view("Name"@, "String"@, "$.metadata.name"@, "Name of the Pod"@, "String"@, 0),
        column_view("Ready"@, "String"@, "$.status.containerStatuses[*].ready"@, "Readiness of the Pod's containers"@, "String"@, 0),
        column_view("Status"@, "String"@, "$.status.phase"@, "Status of the Pod"@, "String"@, 0),
        column_view("Restarts"@, "String"@, "$.status.containerStatuses[*].restartCount"@, "Number of restarts of the Pod's containers"@, "String"@, 0),
        column_view("Age"@, "String"@, "$.metadata.creationTimestamp"@, "Human readable duration since start time of the Pod"@, "String"@, 0),
        column_view("IP"@, "String"@, "$.status.podIps[*]"@, "IP addresses of the Pod's containers"@, "String"@, 1),
        column_view("Node"@, "String"@, "$.spec.nodeName"@, "Node name where the Pod is running"@, "String"@, 1),
        column_view("Nominated Node"@, "String"@, "$.status.nominatedNodeName"@, "Name of Node that is nominated for the Pod to run on"@, "String"@, 1),
        column_view("Readiness Gates"@, "String"@, "$spec.readinessGates[*].conditionType"@, "Condition Gates for the Pod"@, "String"@, 1),
    ]
}

/// The columns for deployments.
pub open spec fn deployment_columns() -> Seq<PrinterColumnView> {
    seq![
        column_view("Namespace"@, "String"@, "$.metadata.namespace"@, "Namespace of the Deployment"@, "String"@, 0),
        column_view("Name"@, "String"@, "$.metadata.name"@, "Name of the Deployment"@, "String"@, 0),
        column_view("Ready"@, "String"@, "$.status.availableReplicas"@, "Readiness of the Deployment's Pods"@, "String"@, 0),
        column_view("Up-To-Date"@, "String"@, "$.status.updatedReplicas"@, "Number of up-to-date pods in the Deployment"@, "String"@, 0),
        column_view("Available"@, "String"@, "$.status.availableReplicas"@, "Number of available Pod's in the Deployment"@, "String"@, 0),
        column_view("Age"@, "String"@, "$.metadata.creationTimestamp"@, "Human readable duration since creation time of the Deployment"@, "String"@, 0),
        column_view("Containers"@, "String"@, "$.spec.template.spec.containers[*].name"@, "Name of containers that the Pods create"@, "String"@, 1),
        column_view("Images"@, "String"@, "$.spec.template.spec.containers[*].image"@, "Images that the containers in the Deployment use"@, "String"@, 1),
        column_view("Selector"@, "String"@, "$.spec.selector.matchLabels[*]"@, "Selectors that the Deployment uses to determine which Pods belong to the Deployment"@, "String"@, 1),
    ]
}

impl PrinterColumns {
    /// A listing without columns.
    pub fn new() -> (p: PrinterColumns)
        ensures
            p@ == Seq::<PrinterColumnView>::empty(),
    {
        let p = PrinterColumns { columns: Vec::new() };
        assert(p@ =~= Seq::<PrinterColumnView>::empty());
        p
    }

    /// The columns for pods.
    pub fn pods() -> (p: PrinterColumns)
        ensures
            p@ == pod_columns(),
            p@.map_values(|c: PrinterColumnView| c.name) == seq!["Namespace"@, "Name"@, "Ready"@, "Status"@, "Restarts"@, "Age"@, "IP"@, "Node"@, "Nominated Node"@, "Readiness Gates"@],
            p@.map_values(|c: PrinterColumnView| c.json_path) == seq!["$.metadata.namespace"@, "$.metadata.name"@, "$.status.containerStatuses[*].ready"@, "$.status.phase"@, "$.status.containerStatuses[*].restartCount"@, "$.metadata.creationTimestamp"@, "$.status.podIps[*]"@, "$.spec.nodeName"@, "$.status.nominatedNodeName"@, "$spec.readinessGates[*].conditionType"@],
            p@.map_values(|c: PrinterColumnView| c.priority) == seq![0u8, 0u8, 0u8, 0u8, 0u8, 0u8, 1u8, 1u8, 1u8, 1u8],
    {
        let mut columns: Vec<PrinterColumn> = Vec::new();
        columns.push(PrinterColumn::make("Namespace", "String", "$.metadata.namespace", "Namespace of the Pod", "String", 0));
        columns.push(PrinterColumn::make("Name", "String", "$.metadata.name", "Name of the Pod", "String", 0));
        columns.push(PrinterColumn::make("Ready", "String", "$.status.containerStatuses[*].ready", "Readiness of the Pod's containers", "String", 0));
        columns.push(PrinterColumn::make("Status", "String", "$.status.phase", "Status of the Pod", "String", 0));
        columns.push(PrinterColumn::make("Restarts", "String", "$.status.containerStatuses[*].restartCount", "Number of restarts of the Pod's containers", "String", 0));
        columns.push(PrinterColumn::make("Age", "String", "$.metadata.creationTimestamp", "Human readable duration since start time of the Pod", "String", 0));
        columns.push(PrinterColumn::make("IP", "String", "$.status.podIps[*]", "IP addresses of the Pod's containers", "String", 1));
        columns.push(PrinterColumn::make("Node", "String", "$.spec.nodeName", "Node name where the Pod is running", "String", 1));
        columns.push(PrinterColumn::make("Nominated Node", "String", "$.status.nominatedNodeName", "Name of Node that is nominated for the Pod to run on", "String", 1));
        columns.push(PrinterColumn::make("Readiness Gates", "String", "$spec.readinessGates[*].conditionType", "Condition Gates for the Pod", "String", 1));
        let p = PrinterColumns { columns };
        assert(p@ =~= pod_columns());
        proof {
            law_pod_columns();
        }
        p
    }

    /// The columns for deployments.
    pub fn deploys() -> (p: PrinterColumns)
        ensures
            p@ == deployment_columns(),
            p@.map_values(|c: PrinterColumnView| c.name) == seq!["Namespace"@, "Name"@, "Ready"@, "Up-To-Date"@, "Available"@, "Age"@, "Containers"@, "Images"@, "Selector"@],
            p@.map_values(|c: PrinterColumnView| c.json_path) == seq!["$.metadata.namespace"@, "$.metadata.name"@, "$.status.availableReplicas"@, "$.status.updatedReplicas"@, "$.status.availableReplicas"@, "$.metadata.creationTimestamp"@, "$.spec.template.spec.containers[*].name"@, "$.spec.template.spec.containers[*].image"@, "$.spec.selector.matchLabels[*]"@],
            p@.map_values(|c: PrinterColumnView| c.priority) == seq![0u8, 0u8, 0u8, 0u8, 0u8, 0u8, 1u8, 1u8, 1u8],
    {
        let mut columns: Vec<PrinterColumn> = Vec::new();
        columns.push(PrinterColumn::make("Namespace", "String", "$.metadata.namespace", "Namespace of the Deployment", "String", 0));
        columns.push(PrinterColumn::make("Name", "String", "$.metadata.name", "Name of the Deployment", "String", 0));
        columns.push(PrinterColumn::make("Ready", "String", "$.status.availableReplicas", "Readiness of the Deployment's Pods", "String", 0));
        columns.push(PrinterColumn::make("Up-To-Date", "String", "$.status.updatedReplicas", "Number of up-to-date pods in the Deployment", "String", 0));
        columns.push(PrinterColumn::make("Available", "String", "$.status.availableReplicas", "Number of available Pod's in the Deployment", "String", 0));
        columns.push(PrinterColumn::make("Age", "String", "$.metadata.creationTimestamp", "Human readable duration since creation time of the Deployment", "String", 0));
        columns.push(PrinterColumn::make("Containers", "String", "$.spec.template.spec.containers[*].name", "Name of containers that the Pods create", "String", 1));
        columns.push(PrinterColumn::make("Images", "String", "$.spec.template.spec.containers[*].image", "Images that the containers in the Deployment use", "String", 1));
        columns.push(PrinterColumn::make("Selector", "String", "$.spec.selector.matchLabels[*]", "Selectors that the Deployment uses to determine which Pods belong to the Deployment", "String", 1));
        let p = PrinterColumns { columns };
        assert(p@ =~= deployment_columns());
        proof {
            law_deployment_columns();
        }
        p
    }
}

/// The pod listing's columns, by heading, JSONPath and priority.
pub proof fn law_pod_columns()
    ensures
        pod_columns().map_values(|c: PrinterColumnView| c.name) == seq!["Namespace"@, "Name"@, "Ready"@, "Status"@, "Restarts"@, "Age"@, "IP"@, "Node"@, "Nominated Node"@, "Readiness Gates"@],
        pod_columns().map_values(|c: PrinterColumnView| c.json_path) == seq!["$.metadata.namespace"@, "$.metadata.name"@, "$.status.containerStatuses[*].ready"@, "$.status.phase"@, "$.status.containerStatuses[*].restartCount"@, "$.metadata.creationTimestamp"@, "$.status.podIps[*]"@, "$.spec.nodeName"@, "$.status.nominatedNodeName"@, "$spec.readinessGates[*].conditionType"@],
        pod_columns().map_values(|c: PrinterColumnView| c.priority) == seq![0u8, 0u8, 0u8, 0u8, 0u8, 0u8, 1u8, 1u8, 1u8, 1u8],
{
    assert(pod_columns().map_values(|c: PrinterColumnView| c.name) =~= seq!["Namespace"@, "Name"@, "Ready"@, "Status"@, "Restarts"@, "Age"@, "IP"@, "Node"@, "Nominated Node"@, "Readiness Gates"@]);
    assert(pod_columns().map_values(|c: PrinterColumnView| c.json_path) =~= seq!["$.metadata.namespace"@, "$.metadata.name"@, "$.status.containerStatuses[*].ready"@, "$.status.phase"@, "$.status.containerStatuses[*].restartCount"@, "$.metadata.creationTimestamp"@, "$.status.podIps[*]"@, "$.spec.nodeName"@, "$.status.nominatedNodeName"@, "$spec.readinessGates[*].conditionType"@]);
    assert(pod_columns().map_values(|c: PrinterColumnView| c.priority) =~= seq![0u8, 0u8, 0u8, 0u8, 0u8, 0u8, 1u8, 1u8, 1u8, 1u8]);
}

/// The deployment listing's columns, by heading, JSONPath and priority.
pub proof fn law_deployment_columns()
    ensures
        deployment_columns().map_values(|c: PrinterColumnView| c.name) == seq!["Namespace"@, "Name"@, "Ready"@, "Up-To-Date"@, "Available"@, "Age"@, "Containers"@, "Images"@, "Selector"@],
        deployment_columns().map_values(|c: PrinterColumnView| c.json_path) == seq!["$.metadata.namespace"@, "$.metadata.name"@, "$.status.availableReplicas"@, "$.status.updatedReplicas"@, "$.status.availableReplicas"@, "$.metadata.creationTimestamp"@, "$.spec.template.spec.containers[*].name"@, "$.spec.template.spec.containers[*].image"@, "$.spec.selector.matchLabels[*]"@],
        deployment_columns().map_values(|c: PrinterColumnView| c.priority) == seq![0u8, 0u8, 0u8, 0u8, 0u8, 0u8, 1u8, 1u8, 1u8],
{
    assert(deployment_columns().map_values(|c: PrinterColumnView| c.name) =~= seq!["Namespace"@, "Name"@, "Ready"@, "Up-To-Date"@, "Available"@, "Age"@, "Containers"@, "Images"@, "Selector"@]);
    assert(deployment_columns().map_values(|c: PrinterColumnView| c.json_path) =~= seq!["$.metadata.namespace"@, "$.metadata.name"@, "$.status.availableReplicas"@, "$.status.updatedReplicas"@, "$.status.availableReplicas"@, "$.metadata.creationTimestamp"@, "$.spec.template.spec.containers[*].name"@, "$.spec.template.spec.containers[*].image"@, "$.spec.selector.matchLabels[*]"@]);
    assert(deployment_columns().map_values(|c: PrinterColumnView| c.priority) =~= seq![0u8, 0u8, 0u8, 0u8, 0u8, 0u8, 1u8, 1u8, 1u8]);
}

} // verus!
