/* Listens to the live channel and refreshes the page when a surface it shows
   moved. */
(function () {
    if (window.__inLive) { return; }
    window.__inLive = true;
    var timer = null;
    function refresh() {
        window.__inKeep = true;
        if (window.__inRefresh) { window.__inRefresh(); }
    }
    function schedule() {
        if (timer) { clearTimeout(timer); }
        timer = setTimeout(function () { timer = null; refresh(); }, 200);
    }
    function wanted(topic) {
        if (topic === 'resync') { return true; }
        var path = window.location.pathname;
        if (path.indexOf('/settings') === 0) { return topic === 'admin'; }
        if (path.indexOf('/shared') === 0) { return topic === 'shares'; }
        if (path.indexOf('/trash') === 0) { return topic === 'trash'; }
        return topic === 'library';
    }
    try {
        var src = new EventSource('/api/live');
        src.onmessage = function (e) {
            var frame;
            try { frame = JSON.parse(e.data); } catch (err) { return; }
            if (frame && wanted(frame.topic)) { schedule(); }
        };
    } catch (err) { }
    setInterval(function () {
        if (document.querySelector('[data-tick]')) { refresh(); }
    }, 60000);
})();
